use vstd::prelude::*;
use crate::scan::same_chars;
use crate::text::chars_of;

verus! {

/// A mode name that names no automation mode.
#[derive(Debug)]
pub struct ParseModeError;

impl ParseModeError {
    /// The message that describes the error.
    pub fn message(&self) -> (r: String)
        ensures
            r@ == "Invalid automation mode"@,
    {
        "Invalid automation mode".to_owned()
    }
}

/// How the diff is obtained: from the Bitbucket API, or from git itself.
#[derive(Clone, Copy, Debug, PartialEq, Eq, Structural)]
pub enum Automation {
    Bitbucket,
    Git,
}

/// What `str::to_lowercase` gives for a text.
pub uninterp spec fn lower_of(s: Seq<char>) -> Seq<char>;

/// Relies on `str::to_lowercase`: the lowercase form of the text, which depends on
/// its characters alone.
#[verifier::external_body]
fn lowercase(s: &str) -> (r: String)
    ensures
        r@ == lower_of(s@),
{
    s.to_lowercase()
}

/// The mode that a lowercase mode name stands for: `bitbucket` or `b`, `git` or `g`.
pub open spec fn automation_of_lowercase(s: Seq<char>) -> Option<Automation> {
    if s == "bitbucket"@ || s == "b"@ {
        Some(Automation::Bitbucket)
    } else if s == "git"@ || s == "g"@ {
        Some(Automation::Git)
    } else {
        None
    }
}

impl Automation {
    /// The mode named by `s`, already in lowercase.
    pub fn from_lowercase(s: &str) -> (r: Result<Automation, ParseModeError>)
        ensures
            match automation_of_lowercase(s@) {
                Some(a) => r == Ok::<Automation, ParseModeError>(a),
                None => r is Err,
            },
    {
        let c = chars_of(s);
        if same_chars(&c, &chars_of("bitbucket")) || same_chars(&c, &chars_of("b")) {
            Ok(Automation::Bitbucket)
        } else if same_chars(&c, &chars_of("git")) || same_chars(&c, &chars_of("g")) {
            Ok(Automation::Git)
        } else {
            Err(ParseModeError)
        }
    }

    /// The mode named by `s`, in any case.
    pub fn from_name(s: &str) -> (r: Result<Automation, ParseModeError>)
        ensures
            match automation_of_lowercase(lower_of(s@)) {
                Some(a) => r == Ok::<Automation, ParseModeError>(a),
                None => r is Err,
            },
    {
        let lower = lowercase(s);
        Automation::from_lowercase(lower.as_str())
    }

    /// The name of the mode, as `Debug` writes it.
    pub fn name(&self) -> (r: String)
        ensures
            r@ == (match *self {
                Automation::Bitbucket => "Bitbucket"@,
                Automation::Git => "Git"@,
            }),
    {
        match self {
            Automation::Bitbucket => "Bitbucket".to_owned(),
            Automation::Git => "Git".to_owned(),
        }
    }
}

impl std::str::FromStr for Automation {
    type Err = ParseModeError;

    fn from_str(string_value: &str) -> (r: Result<Automation, ParseModeError>)
        ensures
            match automation_of_lowercase(lower_of(string_value@)) {
                Some(a) => r == Ok::<Automation, ParseModeError>(a),
                None => r is Err,
            },
    {
        Automation::from_name(string_value)
    }
}

impl Default for Automation {
    fn default() -> (r: Automation)
        ensures
            r == Automation::Bitbucket,
    {
        Automation::Bitbucket
    }
}

/// The command line options.
pub struct Opt {
    /// The feature branch to compare to the comparison branch.
    pub feature: Option<String>,
    /// The branch that the feature branch is merged into.
    pub branch: String,
    /// Print the manifests instead of writing their files.
    pub string_only: bool,
    /// The Bitbucket user for git orchestration.
    pub bitbucket_user: Option<String>,
    /// Keep the temporary folders of git orchestration.
    pub no_clean: bool,
    /// List the supported metadata categories instead of building manifests.
    pub list_supported_mode: bool,
    /// How the diff is obtained.
    pub automation: Automation,
    /// A configuration variable to set, as `key=value`.
    pub config_set: Option<String>,
    /// Print all configuration variables.
    pub config_get_all: bool,
}

} // verus!
