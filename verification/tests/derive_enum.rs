//! A parameter enum written out the way `#[derive(NodeEnum)]` expands it.

use std::fmt;
use std::str::FromStr;

use zennode::error::NodeError;
use zennode::naming::{ident_to_label, snake_to_label, to_screaming_snake, to_snake_case};
use zennode::schema::EnumVariant;

/// Edge detection algorithm.
#[derive(Clone, Copy, Debug, PartialEq, Eq)]
pub enum EdgeMode {
    /// Sobel operator for directional gradient detection.
    Sobel,
    /// Laplacian for isotropic second-derivative detection.
    Laplacian,
    /// Canny edge detector with non-maximum suppression.
    Canny,
    /// Roberts cross operator.
    Roberts,
}

static EDGE_MODE_VARIANTS: [EnumVariant; 4] = [
    EnumVariant {
        name: "sobel",
        label: "Sobel",
        description: "Sobel operator for directional gradient detection.",
    },
    EnumVariant {
        name: "laplacian",
        label: "Laplacian",
        description: "Laplacian for isotropic second-derivative detection.",
    },
    EnumVariant {
        name: "canny",
        label: "Canny (Best)",
        description: "Canny edge detector with non-maximum suppression.",
    },
    EnumVariant {
        name: "roberts",
        label: "Roberts",
        description: "Roberts cross operator.",
    },
];

impl EdgeMode {
    pub fn zenode_variants() -> &'static [EnumVariant] {
        &EDGE_MODE_VARIANTS
    }

    pub fn zenode_name(&self) -> &'static str {
        match self {
            Self::Sobel => "sobel",
            Self::Laplacian => "laplacian",
            Self::Canny => "canny",
            Self::Roberts => "roberts",
        }
    }
}

impl fmt::Display for EdgeMode {
    fn fmt(&self, f: &mut fmt::Formatter<'_>) -> fmt::Result {
        f.write_str(self.zenode_name())
    }
}

impl FromStr for EdgeMode {
    type Err = NodeError;
    fn from_str(s: &str) -> Result<Self, Self::Err> {
        match s {
            "sobel" => Ok(Self::Sobel),
            "laplacian" => Ok(Self::Laplacian),
            "canny" => Ok(Self::Canny),
            "roberts" => Ok(Self::Roberts),
            "roberts_cross" => Ok(Self::Roberts),
            _ => Err(NodeError::Other(format!("unknown variant: {s}"))),
        }
    }
}

#[test]
fn enum_variants_metadata() {
    let variants = EdgeMode::zenode_variants();
    assert_eq!(variants.len(), 4);
    assert_eq!(variants[0].name, "sobel");
    assert_eq!(variants[0].label, "Sobel");
    assert_eq!(variants[1].name, "laplacian");
    assert_eq!(variants[2].name, "canny");
    assert_eq!(variants[2].label, "Canny (Best)");
    assert_eq!(variants[3].name, "roberts");
}

#[test]
fn enum_display() {
    assert_eq!(EdgeMode::Sobel.to_string(), "sobel");
    assert_eq!(EdgeMode::Canny.to_string(), "canny");
}

#[test]
fn enum_from_str() {
    assert_eq!(EdgeMode::from_str("sobel").unwrap(), EdgeMode::Sobel);
    assert_eq!(EdgeMode::from_str("canny").unwrap(), EdgeMode::Canny);
    assert_eq!(
        EdgeMode::from_str("roberts_cross").unwrap(),
        EdgeMode::Roberts
    );
    assert!(EdgeMode::from_str("nonexistent").is_err());
}

#[test]
fn enum_zenode_name() {
    assert_eq!(EdgeMode::Sobel.zenode_name(), "sobel");
    assert_eq!(EdgeMode::Laplacian.zenode_name(), "laplacian");
    assert_eq!(EdgeMode::Canny.zenode_name(), "canny");
    assert_eq!(EdgeMode::Roberts.zenode_name(), "roberts");
}

#[test]
fn enum_doc_comments() {
    let variants = EdgeMode::zenode_variants();
    assert!(variants[0].description.contains("Sobel operator"));
    assert!(variants[2].description.contains("Canny edge detector"));
}

// ─── The naming rules the derive applies ───

#[test]
fn variant_names_follow_the_naming_rules() {
    for (ident, v) in ["Sobel", "Laplacian", "Canny", "Roberts"]
        .iter()
        .zip(EdgeMode::zenode_variants())
    {
        assert_eq!(to_snake_case(ident), v.name);
    }
    assert_eq!(ident_to_label("Laplacian"), "Laplacian");
}

#[test]
fn naming_rules_on_multiword_identifiers() {
    assert_eq!(ident_to_label("AdaptiveSharpen"), "Adaptive Sharpen");
    assert_eq!(to_snake_case("MediumLow"), "medium_low");
    assert_eq!(to_screaming_snake("HslAdjust"), "HSL_ADJUST");
    assert_eq!(to_screaming_snake("ArrayNode"), "ARRAY_NODE");
    assert_eq!(ident_to_label(""), "");
    // A leading capital gets no separator; non-ASCII capitals count too.
    assert_eq!(ident_to_label("ÉcoleMode"), "École Mode");
}

#[test]
fn snake_to_label_capitalizes_words() {
    assert_eq!(snake_to_label("noise_floor"), "Noise Floor");
    assert_eq!(snake_to_label("stops"), "Stops");
    assert_eq!(snake_to_label("a__b"), "A  B");
    assert_eq!(snake_to_label(""), "");
    // `ß` upper-cases to two characters.
    assert_eq!(snake_to_label("ß_x"), "SS X");
}
