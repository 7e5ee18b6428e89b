//! The rules for the name and the template of a new project.

use vstd::prelude::*;
use vstd::string::StringExecFns;
use crate::text::chars_of;

verus! {

/// Whether a character is a letter or a digit, as `char::is_alphanumeric`
/// tells.
pub uninterp spec fn is_alphanumeric(c: char) -> bool;

/// Calls `char::is_alphanumeric`. Assumed, not proved: the answer depends on
/// the character alone.
#[verifier::external_body]
pub(crate) fn check_alphanumeric(c: char) -> (r: bool)
    ensures
        r == is_alphanumeric(c),
{
    c.is_alphanumeric()
}

/// Why a project name is refused.
#[derive(Debug, Clone, Copy, PartialEq, Eq, Structural)]
pub enum ProjectNameError {
    /// The name is empty.
    Empty,
    /// The name holds `/` or `\`.
    PathSeparator,
    /// The name starts with `.` or `-`.
    BadStart,
    /// The name holds something other than letters, digits, `-` and `_`.
    InvalidCharacter,
}

/// The first rule that a project name breaks, if it breaks one.
pub open spec fn project_name_error(name: Seq<char>) -> Option<ProjectNameError> {
    if name.len() == 0 {
        Some(ProjectNameError::Empty)
    } else if name.contains('/') || name.contains('\\') {
        Some(ProjectNameError::PathSeparator)
    } else if name[0] == '.' || name[0] == '-' {
        Some(ProjectNameError::BadStart)
    } else if !(forall|i: int|
        0 <= i < name.len() ==> is_alphanumeric(#[trigger] name[i]) || name[i] == '-' || name[i]
            == '_') {
        Some(ProjectNameError::InvalidCharacter)
    } else {
        None
    }
}

/// Checks a project name against the rules.
pub fn validate_project_name(name: &str) -> (r: Result<(), ProjectNameError>)
    ensures
        match r {
            Ok(_) => project_name_error(name@) is None,
            Err(e) => project_name_error(name@) == Some(e),
        },
{
    let chars = chars_of(name);
    if chars.len() == 0 {
        return Err(ProjectNameError::Empty);
    }
    let mut i: usize = 0;
    while i < chars.len()
        invariant
            i <= chars.len(),
            chars@ == name@,
            forall|k: int| 0 <= k < i ==> chars@[k] != '/' && chars@[k] != '\\',
        decreases chars.len() - i,
    {
        if chars[i] == '/' || chars[i] == '\\' {
            assert(name@[i as int] == '/' || name@[i as int] == '\\');
            return Err(ProjectNameError::PathSeparator);
        }
        i += 1;
    }
    assert(!name@.contains('/') && !name@.contains('\\'));
    if chars[0] == '.' || chars[0] == '-' {
        return Err(ProjectNameError::BadStart);
    }
    let mut j: usize = 0;
    while j < chars.len()
        invariant
            j <= chars.len(),
            chars@ == name@,
            name@.len() > 0,
            !name@.contains('/') && !name@.contains('\\'),
            name@[0] != '.' && name@[0] != '-',
            forall|k: int|
                0 <= k < j ==> is_alphanumeric(#[trigger] chars@[k]) || chars@[k] == '-'
                    || chars@[k] == '_',
        decreases chars.len() - j,
    {
        let c = chars[j];
        if !(check_alphanumeric(c) || c == '-' || c == '_') {
            assert(!(is_alphanumeric(name@[j as int]) || name@[j as int] == '-' || name@[j as int]
                == '_'));
            return Err(ProjectNameError::InvalidCharacter);
        }
        j += 1;
    }
    Ok(())
}

/// The kinds of project that can be created.
#[derive(Debug, Clone, Copy, PartialEq, Eq, Structural)]
pub enum Template {
    Basic,
    Timelock,
    Weighted,
}

/// The template that a name stands for, if it stands for one.
pub open spec fn template_named(name: Seq<char>) -> Option<Template> {
    if name == "basic"@ {
        Some(Template::Basic)
    } else if name == "timelock"@ {
        Some(Template::Timelock)
    } else if name == "weighted"@ {
        Some(Template::Weighted)
    } else {
        None
    }
}

/// Picks the template that `name` stands for.
pub fn select_template(name: &str) -> (r: Option<Template>)
    ensures
        r == template_named(name@),
{
    let wanted = String::from_str(name);
    if wanted == String::from_str("basic") {
        Some(Template::Basic)
    } else if wanted == String::from_str("timelock") {
        Some(Template::Timelock)
    } else if wanted == String::from_str("weighted") {
        Some(Template::Weighted)
    } else {
        None
    }
}

impl Template {
    /// What the template is, in a few words.
    pub fn description(&self) -> (r: String)
        ensures
            r@ == match *self {
                Template::Basic => "Basic M-of-N multisig with security hardening"@,
                Template::Timelock => "Timelock multisig with delayed execution and security hardening"@,
                Template::Weighted => "Weighted voting multisig with security hardening"@,
            },
    {
        match self {
            Template::Basic => String::from_str("Basic M-of-N multisig with security hardening"),
            Template::Timelock => String::from_str(
                "Timelock multisig with delayed execution and security hardening",
            ),
            Template::Weighted => String::from_str(
                "Weighted voting multisig with security hardening",
            ),
        }
    }
}

} // verus!
