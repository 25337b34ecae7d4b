use vstd::prelude::*;

use crate::text::push_char;

verus! {

/// A path with every `\` separator turned into `/`.
pub open spec fn normalized(p: Seq<char>) -> Seq<char> {
    p.map_values(|c: char| if c == '\\' { '/' } else { c })
}

/// Rewrites a relative path so that it uses `/` as its only separator.
pub fn normalize_path(raw: &str) -> (r: String)
    ensures
        r@ == normalized(raw@),
        !r@.contains('\\'),
{
    let n = raw.unicode_len();
    let mut out = String::new();
    let mut i: usize = 0;
    while i < n
        invariant
            n == raw@.len(),
            i <= n,
            out@ == normalized(raw@.subrange(0, i as int)),
        decreases n - i,
    {
        let c = raw.get_char(i);
        if c == '\\' {
            push_char(&mut out, '/');
        } else {
            push_char(&mut out, c);
        }
        assert(normalized(raw@.subrange(0, i + 1)) =~= normalized(raw@.subrange(0, i as int)).push(
            out@.last(),
        ));
        i = i + 1;
    }
    assert(raw@.subrange(0, n as int) =~= raw@);
    out
}

} // verus!
