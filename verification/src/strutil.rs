//! Small executable helpers for strings, with contracts over their
//! `Seq<char>` views.

use vstd::prelude::*;

verus! {

/// Compares two string slices for byte-exact equality.
pub fn str_eq(a: &str, b: &str) -> (r: bool)
    ensures
        r == (a@ == b@),
{
    let sa = String::from_str(a);
    let sb = String::from_str(b);
    sa == sb
}

} // verus!

verus! {

/// Every occurrence of `c` replaced by `w`, character by character.
pub open spec fn spec_replace_char(s: Seq<char>, c: char, w: Seq<char>) -> Seq<char>
    decreases s.len(),
{
    if s.len() == 0 {
        Seq::empty()
    } else {
        (if s[0] == c { w } else { seq![s[0]] }) + spec_replace_char(s.skip(1), c, w)
    }
}

/// Replacing one more character appends its image.
proof fn lemma_replace_char_last(s: Seq<char>, c: char, w: Seq<char>)
    requires
        s.len() >= 1,
    ensures
        spec_replace_char(s, c, w) == spec_replace_char(s.take(s.len() - 1), c, w)
            + (if s.last() == c { w } else { seq![s.last()] }),
    decreases s.len(),
{
    if s.len() == 1 {
        assert(s.skip(1).len() == 0);
        assert(spec_replace_char(s.skip(1), c, w) == Seq::<char>::empty());
        assert(spec_replace_char(s.take(0), c, w) == Seq::<char>::empty());
        assert(spec_replace_char(s, c, w)
            =~= (if s[0] == c { w } else { seq![s[0]] }));
    } else {
        lemma_replace_char_last(s.skip(1), c, w);
        assert(s.skip(1).take(s.len() - 2) =~= s.take(s.len() - 1).skip(1));
        assert(s.take(s.len() - 1)[0] == s[0]);
        assert(s.skip(1).last() == s.last());
        assert(spec_replace_char(s.take(s.len() - 1), c, w)
            == (if s[0] == c { w } else { seq![s[0]] })
                + spec_replace_char(s.take(s.len() - 1).skip(1), c, w));
        assert(spec_replace_char(s, c, w)
            =~= spec_replace_char(s.take(s.len() - 1), c, w)
                + (if s.last() == c { w } else { seq![s.last()] }));
    }
}

/// Replaces every occurrence of `c` in `s` with `w`. The git index driver
/// uses it to substitute the branch name into a fetch refspec's local side.
pub fn replace_char(s: &str, c: char, w: &str) -> (r: String)
    ensures
        r@ == spec_replace_char(s@, c, w@),
{
    let n = s.unicode_len();
    let mut out = String::new();
    let mut i: usize = 0;
    while i < n
        invariant
            n == s@.len(),
            i <= n,
            out@ == spec_replace_char(s@.take(i as int), c, w@),
        decreases n - i,
    {
        let ch = s.get_char(i);
        if ch == c {
            out.append(w);
        } else {
            out.append(s.substring_char(i, i + 1));
        }
        proof {
            lemma_replace_char_last(s@.take(i as int + 1), c, w@);
            assert(s@.take(i as int + 1).take(i as int) =~= s@.take(i as int));
            assert(s@.take(i as int + 1).last() == s@[i as int]);
            assert(s@.subrange(i as int, i as int + 1) =~= seq![s@[i as int]]);
            assert(out@ =~= spec_replace_char(s@.take(i as int + 1), c, w@));
        }
        i += 1;
    }
    proof {
        assert(s@.take(n as int) =~= s@);
    }
    out
}

} // verus!
