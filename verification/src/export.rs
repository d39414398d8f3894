//! Naming of an exported 3MF project: a file name made safe from the
//! project's name, and the attachment header that carries it.

use vstd::prelude::*;

use crate::errors::concat2;
use crate::text::{chars_of, copy_range, string_of};

verus! {

/// The Unicode `Alphabetic` or `Numeric` property, as `char::is_alphanumeric`
/// tests it.
pub uninterp spec fn unicode_alphanumeric(c: char) -> bool;

/// `char::is_alphanumeric`: the result depends on the character alone.
#[verifier::external_body]
fn is_alphanumeric(c: char) -> (r: bool)
    ensures
        r == unicode_alphanumeric(c),
{
    c.is_alphanumeric()
}

/// A character kept in a file name as is: alphanumeric, `-` or `_`; any
/// other becomes `_`.
pub open spec fn safe_char(c: char) -> char {
    if unicode_alphanumeric(c) || c == '-' || c == '_' {
        c
    } else {
        '_'
    }
}

/// `s` without its leading `_`.
pub open spec fn strip_leading_underscores(s: Seq<char>) -> Seq<char>
    decreases s.len(),
{
    if s.len() > 0 && s[0] == '_' {
        strip_leading_underscores(s.drop_first())
    } else {
        s
    }
}

/// `s` without its trailing `_`.
pub open spec fn strip_trailing_underscores(s: Seq<char>) -> Seq<char>
    decreases s.len(),
{
    if s.len() > 0 && s.last() == '_' {
        strip_trailing_underscores(s.drop_last())
    } else {
        s
    }
}

/// Safe file name of a project (`str::trim_matches('_')` after the
/// character mapping), `project` when nothing is left.
pub open spec fn spec_sanitize(name: Seq<char>) -> Seq<char> {
    let cleaned = name.map_values(|c: char| safe_char(c));
    let t = strip_trailing_underscores(strip_leading_underscores(cleaned));
    if t.len() == 0 {
        "project"@
    } else {
        t
    }
}

proof fn lemma_strip_leading(s: Seq<char>, k: int)
    requires
        0 <= k <= s.len(),
        forall|j: int| 0 <= j < k ==> #[trigger] s[j] == '_',
        k == s.len() || s[k] != '_',
    ensures
        strip_leading_underscores(s) == s.skip(k),
    decreases k,
{
    if k == 0 {
        assert(s.skip(0) =~= s);
    } else {
        let t = s.drop_first();
        assert forall|j: int| 0 <= j < k - 1 implies #[trigger] t[j] == '_' by {
            assert(t[j] == s[j + 1]);
        }
        if k - 1 < t.len() {
            assert(t[k - 1] == s[k]);
        }
        lemma_strip_leading(t, k - 1);
        assert(t.skip(k - 1) =~= s.skip(k));
    }
}

proof fn lemma_strip_trailing(s: Seq<char>, k: int)
    requires
        0 <= k <= s.len(),
        forall|j: int| k <= j < s.len() ==> #[trigger] s[j] == '_',
        k == 0 || s[k - 1] != '_',
    ensures
        strip_trailing_underscores(s) == s.take(k),
    decreases s.len() - k,
{
    if k == s.len() {
        assert(s.take(k) =~= s);
    } else {
        let t = s.drop_last();
        assert forall|j: int| k <= j < t.len() implies #[trigger] t[j] == '_' by {
            assert(t[j] == s[j]);
        }
        if k > 0 {
            assert(t[k - 1] == s[k - 1]);
        }
        lemma_strip_trailing(t, k);
        assert(t.take(k) =~= s.take(k));
    }
}

/// Safe file name: alphanumerics, `-` and `_` kept, everything else
/// turned into `_`, surrounding `_` removed, `project` when empty.
pub fn sanitize(name: &str) -> (r: String)
    ensures
        r@ == spec_sanitize(name@),
{
    let v = chars_of(name);
    let mut cleaned: Vec<char> = Vec::new();
    let mut i: usize = 0;
    while i < v.len()
        invariant
            i <= v.len(),
            v@ == name@,
            cleaned@ == v@.take(i as int).map_values(|c: char| safe_char(c)),
        decreases v.len() - i,
    {
        let c = v[i];
        let keep = is_alphanumeric(c) || c == '-' || c == '_';
        let d = if keep {
            c
        } else {
            '_'
        };
        cleaned.push(d);
        i = i + 1;
        assert(cleaned@ =~= v@.take(i as int).map_values(|c: char| safe_char(c)));
    }
    assert(v@.take(v.len() as int) =~= v@);
    let ghost cv = cleaned@;
    let mut a: usize = 0;
    while a < cleaned.len() && cleaned[a] == '_'
        invariant
            a <= cleaned.len(),
            cv == cleaned@,
            forall|j: int| 0 <= j < a ==> #[trigger] cv[j] == '_',
        decreases cleaned.len() - a,
    {
        a = a + 1;
    }
    proof {
        lemma_strip_leading(cv, a as int);
    }
    let ghost tv = cv.skip(a as int);
    let mut b: usize = cleaned.len();
    while b > a && cleaned[b - 1] == '_'
        invariant
            a <= b <= cleaned.len(),
            cv == cleaned@,
            tv == cv.skip(a as int),
            forall|j: int| b <= j < cv.len() ==> #[trigger] cv[j] == '_',
        decreases b - a,
    {
        b = b - 1;
    }
    proof {
        assert forall|j: int| b - a <= j < tv.len() implies #[trigger] tv[j] == '_' by {
            assert(tv[j] == cv[j + a]);
        }
        if b > a {
            assert(tv[b - a - 1] == cv[b - 1]);
        }
        lemma_strip_trailing(tv, b - a);
        assert(tv.take(b - a) =~= cv.subrange(a as int, b as int));
    }
    if b == a {
        "project".to_owned()
    } else {
        string_of(&copy_range(&cleaned, a, b))
    }
}

/// File name of the exported project: `<safe name>.3mf`.
pub fn export_filename(project_name: &str) -> (r: String)
    ensures
        r@ == spec_sanitize(project_name@) + ".3mf"@,
{
    concat2(sanitize(project_name).as_str(), ".3mf")
}

/// `Content-Disposition` value of the exported project:
/// `attachment; filename="<safe name>.3mf"`.
pub fn content_disposition(project_name: &str) -> (r: String)
    ensures
        r@ == "attachment; filename=\""@ + spec_sanitize(project_name@) + ".3mf"@ + "\""@,
{
    let head = concat2("attachment; filename=\"", export_filename(project_name).as_str());
    concat2(head.as_str(), "\"")
}

} // verus!
