//! What a package says of itself in its manifest.
//!
//! The manifest is read as XML text. From the start tags of the elements
//! `manifest`, `uses-sdk` and `uses-permission` the attributes that name the
//! package, its versions and its permissions are picked out, by the words
//! that their qualified names contain.

use vstd::prelude::*;
use vstd::string::*;
use crate::text::{chars_of, contains, has_infix, is_text, texts};
use crate::xml_reader::{read_steps, xml_events};

verus! {

/// One event of reading an XML text.
#[derive(Debug)]
pub enum XmlStep {
    /// A start tag: the local name of the element, and its attributes as
    /// pairs of qualified name and value.
    Start { name: String, attributes: Vec<(String, String)> },
    /// Anything else that is well-formed.
    Other,
    /// The text is not well-formed here.
    Failed,
}

/// What an event says, as plain values.
pub enum StepModel {
    Start { name: Seq<char>, attributes: Seq<(Seq<char>, Seq<char>)> },
    Other,
    Failed,
}

/// The characters of a name and a value.
pub open spec fn pair_view() -> spec_fn((String, String)) -> (Seq<char>, Seq<char>) {
    |a: (String, String)| (a.0@, a.1@)
}

impl View for XmlStep {
    type V = StepModel;

    open spec fn view(&self) -> StepModel {
        match self {
            XmlStep::Start { name, attributes } => StepModel::Start {
                name: name@,
                attributes: attributes@.map_values(pair_view()),
            },
            XmlStep::Other => StepModel::Other,
            XmlStep::Failed => StepModel::Failed,
        }
    }
}

/// What each event says.
pub open spec fn step_views(steps: Seq<XmlStep>) -> Seq<StepModel> {
    steps.map_values(|s: XmlStep| s@)
}

/// What is known of a package.
#[derive(Debug)]
pub struct ApkParsedInfo {
    pub package_name: String,
    pub version_code: String,
    pub version_name: String,
    pub compile_sdk_version: String,
    pub compile_sdk_version_code_name: String,
    pub min_sdk_version: String,
    pub target_sdk_version: String,
    pub permissions: Vec<String>,
    /// The launcher icon, encoded as text.
    pub icon: String,
}

/// What is known of a package, as plain values.
pub struct InfoModel {
    pub package_name: Seq<char>,
    pub version_code: Seq<char>,
    pub version_name: Seq<char>,
    pub compile_sdk_version: Seq<char>,
    pub compile_sdk_version_code_name: Seq<char>,
    pub min_sdk_version: Seq<char>,
    pub target_sdk_version: Seq<char>,
    pub permissions: Seq<Seq<char>>,
    pub icon: Seq<char>,
}

impl View for ApkParsedInfo {
    type V = InfoModel;

    open spec fn view(&self) -> InfoModel {
        InfoModel {
            package_name: self.package_name@,
            version_code: self.version_code@,
            version_name: self.version_name@,
            compile_sdk_version: self.compile_sdk_version@,
            compile_sdk_version_code_name: self.compile_sdk_version_code_name@,
            min_sdk_version: self.min_sdk_version@,
            target_sdk_version: self.target_sdk_version@,
            permissions: texts(self.permissions@),
            icon: self.icon@,
        }
    }
}

/// Nothing known but the icon.
pub open spec fn blank_info(icon: Seq<char>) -> InfoModel {
    InfoModel {
        package_name: Seq::empty(),
        version_code: Seq::empty(),
        version_name: Seq::empty(),
        compile_sdk_version: Seq::empty(),
        compile_sdk_version_code_name: Seq::empty(),
        min_sdk_version: Seq::empty(),
        target_sdk_version: Seq::empty(),
        permissions: Seq::empty(),
        icon,
    }
}

/// What one attribute of the element `manifest` adds. The first word that
/// the attribute's name contains decides.
pub open spec fn with_manifest_attribute(info: InfoModel, name: Seq<char>, value: Seq<char>) -> InfoModel {
    if has_infix(name, "versionCode"@) {
        InfoModel { version_code: value, ..info }
    } else if has_infix(name, "versionName"@) {
        InfoModel { version_name: value, ..info }
    } else if has_infix(name, "compileSdkVersionCodename"@) {
        InfoModel { compile_sdk_version_code_name: value, ..info }
    } else if has_infix(name, "compileSdkVersion"@) {
        InfoModel { compile_sdk_version: value, ..info }
    } else if has_infix(name, "package"@) {
        InfoModel { package_name: value, ..info }
    } else {
        info
    }
}

/// What one attribute of the element `uses-sdk` adds.
pub open spec fn with_sdk_attribute(info: InfoModel, name: Seq<char>, value: Seq<char>) -> InfoModel {
    if has_infix(name, "minSdkVersion"@) {
        InfoModel { min_sdk_version: value, ..info }
    } else if has_infix(name, "targetSdkVersion"@) {
        InfoModel { target_sdk_version: value, ..info }
    } else {
        info
    }
}

/// What one attribute of the element `uses-permission` adds.
pub open spec fn with_permission_attribute(info: InfoModel, name: Seq<char>, value: Seq<char>) -> InfoModel {
    if has_infix(name, "name"@) {
        InfoModel { permissions: info.permissions.push(value), ..info }
    } else {
        info
    }
}

/// What one attribute of the element named `element` adds.
pub open spec fn with_attribute(
    info: InfoModel,
    element: Seq<char>,
    name: Seq<char>,
    value: Seq<char>,
) -> InfoModel {
    if element == "manifest"@ {
        with_manifest_attribute(info, name, value)
    } else if element == "uses-sdk"@ {
        with_sdk_attribute(info, name, value)
    } else if element == "uses-permission"@ {
        with_permission_attribute(info, name, value)
    } else {
        info
    }
}

/// What the attributes of one element add, taken in their order.
pub open spec fn with_attributes(
    info: InfoModel,
    element: Seq<char>,
    attributes: Seq<(Seq<char>, Seq<char>)>,
) -> InfoModel
    decreases attributes.len(),
{
    if attributes.len() == 0 {
        info
    } else {
        with_attribute(
            with_attributes(info, element, attributes.drop_last()),
            element,
            attributes.last().0,
            attributes.last().1,
        )
    }
}

/// What one event adds.
pub open spec fn with_step(info: InfoModel, step: StepModel) -> InfoModel {
    match step {
        StepModel::Start { name, attributes } => with_attributes(info, name, attributes),
        _ => info,
    }
}

/// What the events add to a blank info, taken in their order.
pub open spec fn info_of(steps: Seq<StepModel>, icon: Seq<char>) -> InfoModel
    decreases steps.len(),
{
    if steps.len() == 0 {
        blank_info(icon)
    } else {
        with_step(info_of(steps.drop_last(), icon), steps.last())
    }
}

/// The text was not well-formed somewhere.
pub open spec fn has_failure(steps: Seq<StepModel>) -> bool {
    exists|i: int| 0 <= i < steps.len() && #[trigger] steps[i] is Failed
}

/// What the events tell of the package, or `None` where the text was not
/// well-formed.
pub open spec fn manifest_info(steps: Seq<StepModel>, icon: Seq<char>) -> Option<InfoModel> {
    if has_failure(steps) {
        None
    } else {
        Some(info_of(steps, icon))
    }
}

impl ApkParsedInfo {
    /// Nothing known.
    pub fn new() -> (r: ApkParsedInfo)
        ensures
            r@ == blank_info(Seq::empty()),
    {
        let r = ApkParsedInfo {
            package_name: String::new(),
            version_code: String::new(),
            version_name: String::new(),
            compile_sdk_version: String::new(),
            compile_sdk_version_code_name: String::new(),
            min_sdk_version: String::new(),
            target_sdk_version: String::new(),
            permissions: Vec::new(),
            icon: String::new(),
        };
        assert(texts(r.permissions@) =~= Seq::empty());
        r
    }
}

/// Takes in one attribute of the element named `element`.
pub fn add_attribute(info: &mut ApkParsedInfo, element: &String, name: &String, value: &String)
    ensures
        final(info)@ == with_attribute(old(info)@, element@, name@, value@),
{
    let attr = chars_of(name.as_str());
    if is_text(element, "manifest") {
        if contains(&attr, &chars_of("versionCode")) {
            info.version_code = value.clone();
        } else if contains(&attr, &chars_of("versionName")) {
            info.version_name = value.clone();
        } else if contains(&attr, &chars_of("compileSdkVersionCodename")) {
            info.compile_sdk_version_code_name = value.clone();
        } else if contains(&attr, &chars_of("compileSdkVersion")) {
            info.compile_sdk_version = value.clone();
        } else if contains(&attr, &chars_of("package")) {
            info.package_name = value.clone();
        }
    } else if is_text(element, "uses-sdk") {
        if contains(&attr, &chars_of("minSdkVersion")) {
            info.min_sdk_version = value.clone();
        } else if contains(&attr, &chars_of("targetSdkVersion")) {
            info.target_sdk_version = value.clone();
        }
    } else if is_text(element, "uses-permission") {
        if contains(&attr, &chars_of("name")) {
            let ghost before = info.permissions@;
            info.permissions.push(value.clone());
            assert(texts(info.permissions@) =~= texts(before).push(value@));
        }
    }
}

/// Gathers what the events of a manifest tell of the package; `None` where
/// one of them is a failure.
pub fn derive_info(steps: &Vec<XmlStep>, icon: String) -> (r: Option<ApkParsedInfo>)
    ensures
        match r {
            Some(info) => manifest_info(step_views(steps@), icon@) == Some(info@),
            None => manifest_info(step_views(steps@), icon@) is None,
        },
{
    let mut info = ApkParsedInfo::new();
    info.icon = icon;
    let ghost all = step_views(steps@);
    let mut i: usize = 0;
    while i < steps.len()
        invariant
            i <= steps.len(),
            all == step_views(steps@),
            info@ == info_of(all.take(i as int), icon@),
            forall|k: int| 0 <= k < i ==> !(#[trigger] all[k] is Failed),
        decreases steps.len() - i,
    {
        proof {
            assert(all.take(i + 1).drop_last() =~= all.take(i as int));
            assert(all[i as int] == steps@[i as int]@);
        }
        match &steps[i] {
            XmlStep::Start { name, attributes } => {
                let ghost start = info@;
                let ghost pairs = attributes@.map_values(pair_view());
                let mut j: usize = 0;
                while j < attributes.len()
                    invariant
                        j <= attributes.len(),
                        pairs == attributes@.map_values(pair_view()),
                        info@ == with_attributes(start, name@, pairs.take(j as int)),
                    decreases attributes.len() - j,
                {
                    proof {
                        assert(pairs.take(j + 1).drop_last() =~= pairs.take(j as int));
                    }
                    add_attribute(&mut info, name, &attributes[j].0, &attributes[j].1);
                    j += 1;
                }
                assert(pairs.take(attributes.len() as int) =~= pairs);
            },
            XmlStep::Other => {},
            XmlStep::Failed => {
                return None;
            },
        }
        i += 1;
    }
    assert(all.take(steps.len() as int) =~= all);
    Some(info)
}

/// Reads the text of a manifest and gathers what it tells of the package;
/// `None` where the text is not well-formed XML.
pub fn parse_to_info(content: String, icon: String) -> (r: Option<ApkParsedInfo>)
    ensures
        match r {
            Some(info) => manifest_info(xml_events(content@), icon@) == Some(info@),
            None => manifest_info(xml_events(content@), icon@) is None,
        },
{
    let steps = read_steps(content.as_str());
    derive_info(&steps, icon)
}

} // verus!
