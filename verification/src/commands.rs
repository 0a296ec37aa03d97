//! Export file names: characters that file systems refuse are replaced, and
//! the name gets a `.json` extension when it has none.
use vstd::prelude::*;
use crate::text::{chars_of, ends_with_seq, owned, push_str, spec_lowercase, str_ends_with, string_of, to_lowercase};

verus! {

/// The characters a file name may not hold: `\ / : * ? " < > |`.
pub open spec fn is_illegal(c: char) -> bool {
    c == '\\' || c == '/' || c == ':' || c == '*' || c == '?' || c == '"' || c == '<' || c == '>'
        || c == '|'
}

/// `name` with every illegal character replaced by `-`.
pub open spec fn sanitize_spec(name: Seq<char>) -> Seq<char> {
    Seq::new(name.len(), |i: int| if is_illegal(name[i]) { '-' } else { name[i] })
}

/// Replaces the characters a file name may not hold with `-`.
pub fn sanitize_file_name(name: &str) -> (r: String)
    ensures
        r@ == sanitize_spec(name@),
{
    let v = chars_of(name);
    let mut out: Vec<char> = Vec::new();
    let mut i: usize = 0;
    while i < v.len()
        invariant
            i <= v.len(),
            v@ == name@,
            out@ == sanitize_spec(name@).take(i as int),
        decreases v.len() - i,
    {
        let c = v[i];
        let d = if c == '\\' || c == '/' || c == ':' || c == '*' || c == '?' || c == '"' || c == '<'
            || c == '>' || c == '|' {
            '-'
        } else {
            c
        };
        out.push(d);
        i = i + 1;
        assert(out@ =~= sanitize_spec(name@).take(i as int));
    }
    assert(sanitize_spec(name@).take(v.len() as int) =~= sanitize_spec(name@));
    string_of(out.as_slice())
}

/// The name offered when exporting: the requested one (`mineradio-export.json`
/// by default) with illegal characters replaced, and `.json` appended unless
/// it already ends so (compared after lower-casing).
pub open spec fn export_name_spec(requested: Option<Seq<char>>) -> Seq<char> {
    let raw = match requested {
        Some(n) => n,
        None => "mineradio-export.json"@,
    };
    let safe = sanitize_spec(raw);
    if ends_with_seq(spec_lowercase(safe), ".json"@) {
        safe
    } else {
        safe + ".json"@
    }
}

/// The name offered when exporting (see `export_name_spec`).
pub fn export_file_name(requested: Option<&str>) -> (r: String)
    ensures
        r@ == export_name_spec(match requested {
            Some(n) => Some(n@),
            None => None,
        }),
{
    let raw = match requested {
        Some(n) => owned(n),
        None => owned("mineradio-export.json"),
    };
    let safe = sanitize_file_name(raw.as_str());
    let lower = to_lowercase(safe.as_str());
    if str_ends_with(lower.as_str(), ".json") {
        safe
    } else {
        let mut v = chars_of(safe.as_str());
        push_str(&mut v, ".json");
        string_of(v.as_slice())
    }
}

/// Sanitising is idempotent, keeps the length, and leaves no illegal
/// character behind.
pub proof fn lemma_sanitize(name: Seq<char>)
    ensures
        sanitize_spec(sanitize_spec(name)) == sanitize_spec(name),
        sanitize_spec(name).len() == name.len(),
        forall|i: int| 0 <= i < name.len() ==> !is_illegal(#[trigger] sanitize_spec(name)[i]),
{
    assert(sanitize_spec(sanitize_spec(name)) =~= sanitize_spec(name));
}

} // verus!
