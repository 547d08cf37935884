//! XML text, read by the `xml-rs` crate.

use vstd::prelude::*;
use crate::manifest::{step_views, StepModel, XmlStep};

verus! {

/// The events that reading `content` as XML gives, in order.
pub uninterp spec fn xml_events(content: Seq<char>) -> Seq<StepModel>;

/// `xml::EventReader::from_str` and the events it yields, each turned into
/// a step: a start tag with its local name and its attributes, an error
/// into `Failed`, anything else into `Other`. The reader stops after the
/// first error and after the end of the document.
#[verifier::external_body]
pub(crate) fn read_steps(content: &str) -> (steps: Vec<XmlStep>)
    ensures
        step_views(steps@) == xml_events(content@),
{
    xml::EventReader::from_str(content).into_iter().map(
        |e|
            match e {
                Ok(xml::reader::XmlEvent::StartElement { name, attributes, .. }) => XmlStep::Start {
                    name: name.local_name,
                    attributes: attributes.into_iter().map(|a| (a.name.to_string(), a.value)).collect(),
                },
                Ok(_) => XmlStep::Other,
                Err(_) => XmlStep::Failed,
            },
    ).collect()
}

} // verus!
