//! Lookup tables for labeled images: per-label colors and properties.
//!
//! These are plain dictionaries; the one rule is that a label value may not
//! be listed twice.

use std::collections::HashMap;
use vstd::prelude::*;

use serde_json::Value;

verus! {

broadcast use vstd::std_specs::hash::group_hash_axioms;

/// The integer value a label image stores for one labeled region.
pub type LabelType = u64;

/// The display color of one label value.
#[derive(Debug, Clone, Copy, PartialEq, Eq)]
pub struct Color {
    pub label_value: LabelType,
    pub rgba: Option<[u8; 4]>,
}

/// Free-form properties of one label value.
#[derive(Debug, Clone)]
pub struct Properties {
    pub label_value: LabelType,
    pub metadata: HashMap<String, Value>,
}

/// Where the labeled image's source image lives.
#[derive(Debug, Clone, PartialEq, Eq)]
pub struct Source {
    pub image: Option<String>,
}

impl Default for Source {
    /// By default the source image is two levels up from the label image.
    fn default() -> (r: Source)
        ensures
            r.image is Some,
            r.image->0@ == "../../"@,
    {
        Source { image: Some("../../".to_owned()) }
    }
}

/// The label-image metadata: colors, properties and source.
#[derive(Debug, Clone)]
pub struct ImageLabel {
    pub version: Option<String>,
    pub colors: Option<Vec<Color>>,
    pub properties: Option<Vec<Properties>>,
    pub source: Option<Source>,
}

/// A violation of the label rules.
#[derive(Debug, Copy, Clone, PartialEq, Eq, Structural)]
pub enum InvalidImageLabel {
    /// A label value is listed twice in the colors or properties table.
    NonUniqueLabels,
}

/// The color table of the first `n` colors: later entries win, and entries
/// without a color are left out.
pub open spec fn spec_color_table(cols: Seq<Color>, n: int) -> Map<LabelType, [u8; 4]>
    decreases n,
{
    if n <= 0 {
        Map::empty()
    } else {
        let m = spec_color_table(cols, n - 1);
        match cols[n - 1].rgba {
            Some(rgba) => m.insert(cols[n - 1].label_value, rgba),
            None => m,
        }
    }
}

/// The label values of the first `n` property entries.
pub open spec fn spec_property_labels(props: Seq<Properties>, n: int) -> Set<LabelType>
    decreases n,
{
    if n <= 0 {
        Set::empty()
    } else {
        spec_property_labels(props, n - 1).insert(props[n - 1].label_value)
    }
}

impl ImageLabel {
    /// The color table the document declares, as the specification sees it.
    pub open spec fn spec_label_colors(&self) -> Map<LabelType, [u8; 4]> {
        match self.colors {
            Some(cols) => spec_color_table(cols@, cols@.len() as int),
            None => Map::empty(),
        }
    }

    /// The property-label set the document declares, as the specification
    /// sees it.
    pub open spec fn spec_property_label_set(&self) -> Set<LabelType> {
        match self.properties {
            Some(props) => spec_property_labels(props@, props@.len() as int),
            None => Set::empty(),
        }
    }

    /// Collect the color of every label value that declares one; a label
    /// listed twice keeps its last color.
    #[verifier::loop_isolation(false)]
    pub fn label_colors(&self) -> (r: HashMap<LabelType, [u8; 4]>)
        ensures
            r@ == self.spec_label_colors(),
    {
        let cols = match &self.colors {
            None => {
                return HashMap::with_capacity(0);
            },
            Some(c) => c,
        };
        let ghost s = cols@;
        let mut accum: HashMap<LabelType, [u8; 4]> = HashMap::with_capacity(cols.len());
        let mut i: usize = 0;
        while i < cols.len()
            invariant
                i <= s.len(),
                accum@ == spec_color_table(s, i as int),
            decreases cols.len() - i,
        {
            if let Some(rgba) = cols[i].rgba {
                accum.insert(cols[i].label_value, rgba);
            }
            i = i + 1;
        }
        accum
    }

    /// Collect the properties of every label value; a label listed twice
    /// keeps its last properties.
    #[verifier::loop_isolation(false)]
    pub fn label_properties<'a>(&'a self) -> (r: HashMap<LabelType, &'a HashMap<String, Value>>)
        ensures
            r@.dom() == self.spec_property_label_set(),
    {
        let props = match &self.properties {
            None => {
                return HashMap::with_capacity(0);
            },
            Some(p) => p,
        };
        let ghost s = props@;
        let mut accum: HashMap<LabelType, &HashMap<String, Value>> = HashMap::with_capacity(
            props.len(),
        );
        let mut i: usize = 0;
        while i < props.len()
            invariant
                i <= s.len(),
                accum@.dom() == spec_property_labels(s, i as int),
            decreases props.len() - i,
        {
            accum.insert(props[i].label_value, &props[i].metadata);
            proof {
                assert(accum@.dom() =~= spec_property_labels(s, i + 1));
            }
            i = i + 1;
        }
        accum
    }

    /// The result of validating the label tables: a color or property table
    /// shorter than its source list repeats a label value.
    pub open spec fn spec_validate(&self) -> Result<(), InvalidImageLabel> {
        if self.spec_label_colors().len() != 0 && self.colors->0@.len()
            != self.spec_label_colors().len() {
            Err(InvalidImageLabel::NonUniqueLabels)
        } else if self.spec_property_label_set().len() != 0 && self.properties->0@.len()
            != self.spec_property_label_set().len() {
            Err(InvalidImageLabel::NonUniqueLabels)
        } else {
            Ok(())
        }
    }

    /// Validate the label tables, reporting a repeated label value.
    pub fn validate(&self) -> (r: Result<(), InvalidImageLabel>)
        ensures
            r == self.spec_validate(),
    {
        let lcs = self.label_colors();
        if lcs.len() != 0 {
            if let Some(cols) = &self.colors {
                if cols.len() != lcs.len() {
                    return Err(InvalidImageLabel::NonUniqueLabels);
                }
            }
        }
        let lps = self.label_properties();
        if lps.len() != 0 {
            if let Some(props) = &self.properties {
                if props.len() != lps.len() {
                    return Err(InvalidImageLabel::NonUniqueLabels);
                }
            }
        }
        Ok(())
    }
}

} // verus!
