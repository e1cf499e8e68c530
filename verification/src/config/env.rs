//! A snapshot of the environment.

use crate::config::setting::{variable_name, Setting};
use crate::text::same_text;
use vstd::prelude::*;

verus! {

/// Why a variable has no text.
#[derive(Debug, Clone, PartialEq, Eq)]
pub enum VarError {
    /// The variable is not set.
    NotPresent,
    /// The value is not valid Unicode; the string shows it with escapes.
    NotUnicode(String),
}

/// The contents of [`VarError`].
#[verifier::ext_equal]
pub enum VarErrorView {
    NotPresent,
    NotUnicode(Seq<char>),
}

impl View for VarError {
    type V = VarErrorView;

    open spec fn view(&self) -> VarErrorView {
        match self {
            VarError::NotPresent => VarErrorView::NotPresent,
            VarError::NotUnicode(raw) => VarErrorView::NotUnicode(raw@),
        }
    }
}

/// The variables of the environment, in its order: each name with its value, or with what shows a
/// value that is not valid Unicode.
#[derive(Debug, Clone)]
pub struct EnvVars {
    pub vars: Vec<(String, Result<String, String>)>,
}

/// The contents of one entry of [`EnvVars`].
pub open spec fn entry_view(entry: (String, Result<String, String>)) -> (
    Seq<char>,
    Result<Seq<char>, Seq<char>>,
) {
    (
        entry.0@,
        match entry.1 {
            Ok(value) => Ok(value@),
            Err(raw) => Err(raw@),
        },
    )
}

impl View for EnvVars {
    type V = Seq<(Seq<char>, Result<Seq<char>, Seq<char>>)>;

    open spec fn view(&self) -> Self::V {
        self.vars@.map_values(|e: (String, Result<String, String>)| entry_view(e))
    }
}

/// The value of the first variable of that name.
pub open spec fn lookup(
    vars: Seq<(Seq<char>, Result<Seq<char>, Seq<char>>)>,
    name: Seq<char>,
) -> Result<Seq<char>, VarErrorView>
    decreases vars.len(),
{
    if vars.len() == 0 {
        Err(VarErrorView::NotPresent)
    } else if vars.first().0 == name {
        match vars.first().1 {
            Ok(value) => Ok(value),
            Err(raw) => Err(VarErrorView::NotUnicode(raw)),
        }
    } else {
        lookup(vars.drop_first(), name)
    }
}

/// The value of a setting.
pub open spec fn value_of(
    vars: Seq<(Seq<char>, Result<Seq<char>, Seq<char>>)>,
    setting: Setting,
) -> Result<Seq<char>, VarErrorView> {
    lookup(vars, variable_name(setting))
}

impl EnvVars {
    /// The value of a setting, or why it has none.
    pub fn var(&self, setting: Setting) -> (r: Result<String, VarError>)
        ensures
            match r {
                Ok(value) => value_of(self@, setting) == Ok::<_, VarErrorView>(value@),
                Err(e) => value_of(self@, setting) == Err::<Seq<char>, _>(e@),
            },
    {
        let name = setting.variable();
        let mut i: usize = 0;
        assert(self@.skip(0) == self@);
        while i < self.vars.len()
            invariant
                i <= self.vars.len(),
                name@ == variable_name(setting),
                self@.len() == self.vars.len(),
                lookup(self@, name@) == lookup(self@.skip(i as int), name@),
            decreases self.vars.len() - i,
        {
            let ghost rest = self@.skip(i as int);
            assert(rest.first() == entry_view(self.vars@[i as int]));
            if same_text(&self.vars[i].0, name) {
                match &self.vars[i].1 {
                    Ok(value) => {
                        return Ok(value.clone());
                    },
                    Err(raw) => {
                        return Err(VarError::NotUnicode(raw.clone()));
                    },
                }
            }
            assert(rest.drop_first() == self@.skip(i + 1));
            i += 1;
        }
        Err(VarError::NotPresent)
    }

    /// The value of a setting, where it has one.
    pub fn text(&self, setting: Setting) -> (r: Option<String>)
        ensures
            match r {
                Some(value) => value_of(self@, setting) == Ok::<_, VarErrorView>(value@),
                None => value_of(self@, setting) is Err,
            },
    {
        match self.var(setting) {
            Ok(value) => Some(value),
            Err(_) => None,
        }
    }
}

} // verus!
