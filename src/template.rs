//! Filling an output template with named values.

use strfmt::FmtError;
use vstd::prelude::*;

verus! {

#[verifier::external_type_specification]
#[verifier::external_body]
pub struct ExFmtError(FmtError);

/// The text of `template` with each `{key}` filled from `vars`, or none when
/// the template is malformed or names a key that `vars` lacks.
pub uninterp spec fn filled(template: Seq<char>, vars: Seq<(Seq<char>, Seq<char>)>) -> Option<
    Seq<char>,
>;

/// The text of each pair.
pub open spec fn vars_view(vars: Seq<(String, String)>) -> Seq<(Seq<char>, Seq<char>)> {
    vars.map_values(|kv: (String, String)| (kv.0@, kv.1@))
}

/// Relies on `strfmt::strfmt`: Rust-style formatting of `template` with the
/// values of a map of named variables.
#[verifier::external_body]
fn strfmt_vars(template: &str, vars: &Vec<(String, String)>) -> (r: Result<String, FmtError>)
    ensures
        match r {
            Ok(s) => filled(template@, vars_view(vars@)) == Some(s@),
            Err(_) => filled(template@, vars_view(vars@)) is None,
        },
{
    let map: std::collections::HashMap<String, &str> = vars.iter().map(
        |kv| (kv.0.clone(), kv.1.as_str()),
    ).collect();
    strfmt::strfmt(template, &map)
}

/// The template filled from `vars`; none where the template cannot be filled.
pub fn fill_template(template: &str, vars: &Vec<(String, String)>) -> (r: Option<String>)
    ensures
        match r {
            Some(s) => filled(template@, vars_view(vars@)) == Some(s@),
            None => filled(template@, vars_view(vars@)) is None,
        },
{
    match strfmt_vars(template, vars) {
        Ok(s) => Some(s),
        Err(_) => None,
    }
}

} // verus!
