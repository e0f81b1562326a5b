//! The model segment: the model's name, and optionally the effort level.
use vstd::prelude::*;

use crate::segment::{metadata_view, SegmentData};
use crate::text::{concat, to_string};

verus! {

broadcast use vstd::string::group_string_axioms;

/// Shows the model in use.
pub struct ModelSegment {
    show_effort: bool,
}

/// The name shown for a model: the configured one when there is one,
/// otherwise the display name.
pub open spec fn model_name(config_name: Option<Seq<char>>, display_name: Seq<char>) -> Seq<char> {
    match config_name {
        Some(n) => n,
        None => display_name,
    }
}

/// The main text: the name, followed by ` · ` and the effort level when it
/// is shown.
pub open spec fn model_primary(name: Seq<char>, effort: Option<Seq<char>>) -> Seq<char> {
    match effort {
        Some(e) => name + " · "@ + e,
        None => name,
    }
}

/// The metadata: the model id, its display name, and the effort level when
/// it is shown.
pub open spec fn model_metadata(
    model_id: Seq<char>,
    display_name: Seq<char>,
    effort: Option<Seq<char>>,
) -> Seq<(Seq<char>, Seq<char>)> {
    let base = seq![("model_id"@, model_id), ("display_name"@, display_name)];
    match effort {
        Some(e) => base.push(("effort"@, e)),
        None => base,
    }
}

impl ModelSegment {
    /// Whether the segment shows the effort level.
    pub closed spec fn shows_effort(self) -> bool {
        self.show_effort
    }

    /// A segment that shows the effort level.
    pub fn new() -> (s: Self)
        ensures
            s.shows_effort(),
    {
        ModelSegment { show_effort: true }
    }

    /// The segment, showing the effort level or not.
    pub fn with_show_effort(self, show: bool) -> (s: Self)
        ensures
            s.shows_effort() == show,
    {
        let mut s = self;
        s.show_effort = show;
        s
    }

    /// Whether the segment shows the effort level.
    pub fn show_effort(&self) -> (b: bool)
        ensures
            b == self.shows_effort(),
    {
        self.show_effort
    }

    /// The configured name of the model when there is one, otherwise the
    /// display name the session reports.
    pub fn format_model_name(&self, config_name: Option<String>, display_name: &str) -> (r: String)
        ensures
            r@ == model_name(
                match config_name {
                    Some(n) => Some(n@),
                    None => None,
                },
                display_name@,
            ),
    {
        match config_name {
            Some(n) => n,
            None => to_string(display_name),
        }
    }

    /// Renders the segment for the model `model_id` (shown as `display_name`
    /// unless a configured name is given), with the effort level in force
    /// when the segment shows it.
    pub fn collect(
        &self,
        model_id: &str,
        display_name: &str,
        config_name: Option<String>,
        effort: Option<String>,
    ) -> (d: SegmentData)
        requires
            self.shows_effort() ==> effort is Some,
        ensures
            ({
                let shown = if self.shows_effort() {
                    match effort {
                        Some(e) => Some(e@),
                        None => None,
                    }
                } else {
                    None
                };
                let config = match config_name {
                    Some(n) => Some(n@),
                    None => None,
                };
                &&& d.primary@ == model_primary(model_name(config, display_name@), shown)
                &&& d.secondary@ == Seq::<char>::empty()
                &&& metadata_view(d.metadata@) == model_metadata(model_id@, display_name@, shown)
            }),
    {
        let mut metadata: Vec<(String, String)> = Vec::new();
        metadata.push((to_string("model_id"), to_string(model_id)));
        metadata.push((to_string("display_name"), to_string(display_name)));
        let name = self.format_model_name(config_name, display_name);
        let primary = if self.show_effort {
            match effort {
                Some(e) => {
                    metadata.push((to_string("effort"), e.clone()));
                    let mut p = concat(name.as_str(), " · ");
                    p.append(e.as_str());
                    p
                },
                None => name,
            }
        } else {
            name
        };
        assert(metadata_view(metadata@) =~= model_metadata(
            model_id@,
            display_name@,
            if self.shows_effort() {
                match effort {
                    Some(e) => Some(e@),
                    None => None,
                }
            } else {
                None
            },
        ));
        SegmentData { primary, secondary: String::new(), metadata }
    }
}

impl Default for ModelSegment {
    fn default() -> (s: Self)
        ensures
            s.shows_effort(),
    {
        Self::new()
    }
}

} // verus!
