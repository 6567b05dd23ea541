//! The options of the attribute: whether invocations of other macros are
//! searched for escape markers.
use vstd::prelude::*;

use crate::model::ErrorV;
use crate::table::AliasError;

verus! {

#[derive(Debug)]
pub struct Options {
    pub in_macros: bool,
}

impl Default for Options {
    fn default() -> (r: Options)
        ensures
            !r.in_macros,
    {
        Options { in_macros: false }
    }
}

/// The value given to an option.
#[derive(Debug)]
pub enum Lit {
    Bool(bool),
    /// Any other literal, as written.
    Other(String),
}

/// One option: `name`, or `name = value`.
#[derive(Debug)]
pub struct Setting {
    pub name: String,
    pub value: Option<Lit>,
}

/// The one option there is.
pub open spec fn macros_option() -> Seq<char> {
    "macros"@
}

/// The value of `macros` after the settings, in order: a later setting wins,
/// a bare `macros` means `true`, and it is off when not given. The first
/// setting that names another option or gives `macros` a value that is no
/// boolean is the error.
pub open spec fn settings_result(s: Seq<Setting>) -> Result<bool, ErrorV>
    decreases s.len(),
{
    if s.len() == 0 {
        Ok(false)
    } else {
        match settings_result(s.drop_last()) {
            Err(e) => Err(e),
            Ok(prev) => {
                let last = s.last();
                if last.name@ != macros_option() {
                    Err(ErrorV::UnsupportedOption(last.name@))
                } else {
                    match last.value {
                        None => Ok(true),
                        Some(Lit::Bool(b)) => Ok(b),
                        Some(Lit::Other(_)) => Err(ErrorV::ExpectedBool(last.name@)),
                    }
                }
            },
        }
    }
}

impl Options {
    /// The options that a list of settings gives.
    pub fn from_settings(settings: &Vec<Setting>) -> (r: Result<Options, AliasError>)
        ensures
            match r {
                Ok(o) => settings_result(settings@) == Ok::<bool, ErrorV>(o.in_macros),
                Err(e) => settings_result(settings@) == Err::<bool, ErrorV>(e@),
            },
    {
        let macros = "macros".to_owned();
        proof {
            reveal_strlit("macros");
        }
        let mut options = Options::default();
        let mut i: usize = 0;
        while i < settings.len()
            invariant
                i <= settings.len(),
                macros@ == macros_option(),
                settings_result(settings@.take(i as int)) == Ok::<bool, ErrorV>(options.in_macros),
            decreases settings.len() - i,
        {
            proof {
                crate::seqs::lemma_take_next(settings@, i as int);
            }
            let s = &settings[i];
            if s.name != macros {
                proof {
                    lemma_settings_prefix_error(settings@, i + 1);
                }
                return Err(AliasError::UnsupportedOption(s.name.clone()));
            }
            match &s.value {
                None => {
                    options.in_macros = true;
                },
                Some(Lit::Bool(b)) => {
                    options.in_macros = *b;
                },
                Some(Lit::Other(_)) => {
                    proof {
                        lemma_settings_prefix_error(settings@, i + 1);
                    }
                    return Err(AliasError::ExpectedBool(s.name.clone()));
                },
            }
            i += 1;
        }
        proof {
            crate::seqs::lemma_take_all(settings@);
        }
        Ok(options)
    }
}

pub proof fn lemma_settings_prefix_error(s: Seq<Setting>, k: int)
    requires
        0 <= k <= s.len(),
        settings_result(s.take(k)) is Err,
    ensures
        settings_result(s) == settings_result(s.take(k)),
    decreases s.len(),
{
    if k < s.len() {
        assert(s.drop_last().take(k) =~= s.take(k));
        lemma_settings_prefix_error(s.drop_last(), k);
    } else {
        assert(s.take(k) =~= s);
    }
}

} // verus!
