//! Semantic versions: the `(major, minor, patch, pre-release, build)` model,
//! semver precedence, canonical rendering, and strict parsing that accepts
//! exactly the canonical rendering of a valid version.

use vstd::prelude::*;

verus! {

/// A semantic version. `pre` and `build` hold the dot-separated identifiers
/// of the pre-release and build-metadata parts; both are empty for a plain
/// release like `1.2.3`.
#[derive(Clone, Debug)]
pub struct Version {
    /// The major component.
    pub major: u64,
    /// The minor component.
    pub minor: u64,
    /// The patch component.
    pub patch: u64,
    /// The pre-release identifiers, in order.
    pub pre: Vec<String>,
    /// The build-metadata identifiers, in order.
    pub build: Vec<String>,
}

/// Characters allowed in pre-release and build identifiers.
pub open spec fn is_ident_char(c: char) -> bool {
    ('a' as u32 <= c as u32 && c as u32 <= 'z' as u32)
        || ('A' as u32 <= c as u32 && c as u32 <= 'Z' as u32)
        || ('0' as u32 <= c as u32 && c as u32 <= '9' as u32)
        || c == '-'
}

/// An identifier made of digits only.
pub open spec fn is_num_ident(s: Seq<char>) -> bool {
    s.len() > 0 && forall|i: int| 0 <= i < s.len()
        ==> '0' as u32 <= (#[trigger] s[i]) as u32 && s[i] as u32 <= '9' as u32
}

/// A valid identifier: non-empty, identifier characters only, and a numeric
/// identifier has no leading zero.
pub open spec fn valid_ident(s: Seq<char>) -> bool {
    &&& s.len() > 0
    &&& forall|i: int| 0 <= i < s.len() ==> is_ident_char(#[trigger] s[i])
    &&& (is_num_ident(s) && s.len() > 1 ==> s[0] != '0')
}

/// A valid build identifier: non-empty, identifier characters only (leading
/// zeros are allowed here).
pub open spec fn valid_build_ident(s: Seq<char>) -> bool {
    s.len() > 0 && forall|i: int| 0 <= i < s.len() ==> is_ident_char(#[trigger] s[i])
}

/// The identifiers of a pre-release or build list, as character sequences.
pub open spec fn idents_view(v: Seq<String>) -> Seq<Seq<char>> {
    v.map_values(|s: String| s@)
}

impl Version {
    /// All pre-release identifiers are valid, all build identifiers are valid.
    pub open spec fn wf(&self) -> bool {
        &&& forall|i: int| 0 <= i < self.pre@.len() ==> valid_ident((#[trigger] self.pre@[i])@)
        &&& forall|i: int| 0 <= i < self.build@.len()
            ==> valid_build_ident((#[trigger] self.build@[i])@)
    }

    /// The pre-release identifiers as character sequences.
    pub open spec fn pre_view(&self) -> Seq<Seq<char>> {
        idents_view(self.pre@)
    }
}

// ---------------------------------------------------------------------------
// Precedence
// ---------------------------------------------------------------------------

/// Strict lexicographic order on character sequences, by code point.
pub open spec fn lex_lt(a: Seq<char>, b: Seq<char>) -> bool
    decreases a.len(),
{
    if b.len() == 0 {
        false
    } else if a.len() == 0 {
        true
    } else if a[0] != b[0] {
        (a[0] as u32) < (b[0] as u32)
    } else {
        lex_lt(a.skip(1), b.skip(1))
    }
}

/// Strict order on identifiers, per semver: numeric identifiers order
/// numerically (equivalently, without leading zeros: by length then
/// lexicographically), numeric identifiers come before alphanumeric ones,
/// and alphanumeric identifiers order lexicographically.
pub open spec fn ident_lt(a: Seq<char>, b: Seq<char>) -> bool {
    if is_num_ident(a) && is_num_ident(b) {
        a.len() < b.len() || (a.len() == b.len() && lex_lt(a, b))
    } else if is_num_ident(a) {
        true
    } else if is_num_ident(b) {
        false
    } else {
        lex_lt(a, b)
    }
}

/// Strict order on non-empty pre-release identifier lists: identifier by
/// identifier, a strict prefix coming first.
pub open spec fn pre_list_lt(a: Seq<Seq<char>>, b: Seq<Seq<char>>) -> bool
    decreases a.len(),
{
    if b.len() == 0 {
        false
    } else if a.len() == 0 {
        true
    } else if a[0] != b[0] {
        ident_lt(a[0], b[0])
    } else {
        pre_list_lt(a.skip(1), b.skip(1))
    }
}

/// Strict order on pre-release parts, a release (empty part) coming after
/// every pre-release of the same triple.
pub open spec fn pre_lt(a: Seq<Seq<char>>, b: Seq<Seq<char>>) -> bool {
    a.len() > 0 && (b.len() == 0 || pre_list_lt(a, b))
}

/// Semver precedence: the numeric triple orders lexicographically, and on an
/// equal triple the pre-release part decides (build metadata is ignored).
pub open spec fn version_lt(a: Version, b: Version) -> bool {
    if a.major != b.major {
        a.major < b.major
    } else if a.minor != b.minor {
        a.minor < b.minor
    } else if a.patch != b.patch {
        a.patch < b.patch
    } else {
        pre_lt(a.pre_view(), b.pre_view())
    }
}

/// Two versions are precedence-equal when their triples and pre-release
/// parts agree (build metadata is ignored).
pub open spec fn version_eq(a: Version, b: Version) -> bool {
    a.major == b.major && a.minor == b.minor && a.patch == b.patch
        && a.pre_view() == b.pre_view()
}

/// `lex_lt` never holds in both directions.
pub proof fn lemma_lex_lt_asym(a: Seq<char>, b: Seq<char>)
    requires
        lex_lt(a, b),
    ensures
        !lex_lt(b, a),
    decreases a.len(),
{
    if b.len() == 0 {
    } else if a.len() == 0 {
    } else if a[0] != b[0] {
    } else {
        lemma_lex_lt_asym(a.skip(1), b.skip(1));
    }
}

/// `lex_lt` is transitive.
pub proof fn lemma_lex_lt_trans(a: Seq<char>, b: Seq<char>, c: Seq<char>)
    requires
        lex_lt(a, b),
        lex_lt(b, c),
    ensures
        lex_lt(a, c),
    decreases a.len(),
{
    if b.len() == 0 || c.len() == 0 || a.len() == 0 {
    } else if a[0] == b[0] && b[0] == c[0] {
        lemma_lex_lt_trans(a.skip(1), b.skip(1), c.skip(1));
    }
}

/// `ident_lt` never holds in both directions.
pub proof fn lemma_ident_lt_asym(a: Seq<char>, b: Seq<char>)
    requires
        ident_lt(a, b),
    ensures
        !ident_lt(b, a),
{
    if is_num_ident(a) && is_num_ident(b) {
        if a.len() == b.len() {
            lemma_lex_lt_asym(a, b);
        }
    } else if !is_num_ident(a) && !is_num_ident(b) {
        lemma_lex_lt_asym(a, b);
    }
}

/// `ident_lt` is transitive.
pub proof fn lemma_ident_lt_trans(a: Seq<char>, b: Seq<char>, c: Seq<char>)
    requires
        ident_lt(a, b),
        ident_lt(b, c),
    ensures
        ident_lt(a, c),
{
    if is_num_ident(a) && is_num_ident(b) && is_num_ident(c) {
        if a.len() == b.len() && b.len() == c.len() {
            lemma_lex_lt_trans(a, b, c);
        }
    } else if !is_num_ident(a) && !is_num_ident(b) && !is_num_ident(c) {
        lemma_lex_lt_trans(a, b, c);
    }
}

/// `pre_list_lt` never holds in both directions.
pub proof fn lemma_pre_list_lt_asym(a: Seq<Seq<char>>, b: Seq<Seq<char>>)
    requires
        pre_list_lt(a, b),
    ensures
        !pre_list_lt(b, a),
    decreases a.len(),
{
    if b.len() == 0 {
    } else if a.len() == 0 {
    } else if a[0] != b[0] {
        lemma_ident_lt_asym(a[0], b[0]);
    } else {
        lemma_pre_list_lt_asym(a.skip(1), b.skip(1));
    }
}

/// `pre_list_lt` is transitive.
pub proof fn lemma_pre_list_lt_trans(a: Seq<Seq<char>>, b: Seq<Seq<char>>, c: Seq<Seq<char>>)
    requires
        pre_list_lt(a, b),
        pre_list_lt(b, c),
    ensures
        pre_list_lt(a, c),
    decreases a.len(),
{
    if b.len() == 0 || c.len() == 0 || a.len() == 0 {
    } else if a[0] == b[0] && b[0] == c[0] {
        lemma_pre_list_lt_trans(a.skip(1), b.skip(1), c.skip(1));
    } else if a[0] == b[0] {
        // first difference is between b and c
    } else if b[0] == c[0] {
    } else {
        lemma_ident_lt_trans(a[0], b[0], c[0]);
        if a[0] == c[0] {
            lemma_ident_lt_asym(a[0], b[0]);
            assert(false);
        }
    }
}

/// Semver precedence is irreflexive.
pub proof fn lemma_version_lt_irrefl(a: Version)
    ensures
        !version_lt(a, a),
{
    if version_lt(a, a) {
        lemma_pre_list_lt_asym(a.pre_view(), a.pre_view());
    }
}

/// Semver precedence is transitive.
pub proof fn lemma_version_lt_trans(a: Version, b: Version, c: Version)
    requires
        version_lt(a, b),
        version_lt(b, c),
    ensures
        version_lt(a, c),
{
    if a.major == c.major && a.minor == c.minor && a.patch == c.patch
        && a.major == b.major && a.minor == b.minor && a.patch == b.patch {
        if a.pre_view().len() > 0 && b.pre_view().len() > 0 && c.pre_view().len() > 0 {
            lemma_pre_list_lt_trans(a.pre_view(), b.pre_view(), c.pre_view());
        }
    }
}

// ---------------------------------------------------------------------------
// Executable comparisons
// ---------------------------------------------------------------------------

/// Compares two strings lexicographically by code point.
pub fn lex_lt_exec(a: &str, b: &str) -> (r: bool)
    ensures
        r == lex_lt(a@, b@),
{
    let na = a.unicode_len();
    let nb = b.unicode_len();
    let mut i: usize = 0;
    proof {
        assert(a@.skip(0) =~= a@);
        assert(b@.skip(0) =~= b@);
    }
    loop
        invariant
            na == a@.len(),
            nb == b@.len(),
            i <= na,
            i <= nb,
            forall|j: int| 0 <= j < i ==> a@[j] == b@[j],
            lex_lt(a@, b@) == lex_lt(a@.skip(i as int), b@.skip(i as int)),
        decreases na - i,
    {
        if i >= nb {
            return false;
        }
        if i >= na {
            return true;
        }
        let ca = a.get_char(i);
        let cb = b.get_char(i);
        if ca != cb {
            return (ca as u32) < (cb as u32);
        }
        proof {
            assert(a@.skip(i as int).skip(1) =~= a@.skip(i as int + 1));
            assert(b@.skip(i as int).skip(1) =~= b@.skip(i as int + 1));
        }
        i += 1;
    }
}

/// Checks whether a string is all digits (and non-empty).
pub fn is_num_ident_exec(s: &str) -> (r: bool)
    ensures
        r == is_num_ident(s@),
{
    let n = s.unicode_len();
    if n == 0 {
        return false;
    }
    let mut i: usize = 0;
    while i < n
        invariant
            n == s@.len(),
            i <= n,
            forall|j: int| 0 <= j < i
                ==> '0' as u32 <= (#[trigger] s@[j]) as u32 && s@[j] as u32 <= '9' as u32,
        decreases n - i,
    {
        let u = s.get_char(i) as u32;
        if !(48u32 <= u && u <= 57u32) {
            return false;
        }
        i += 1;
    }
    true
}

/// Compares two identifiers per semver identifier order.
pub fn ident_lt_exec(a: &str, b: &str) -> (r: bool)
    ensures
        r == ident_lt(a@, b@),
{
    let num_a = is_num_ident_exec(a);
    let num_b = is_num_ident_exec(b);
    if num_a && num_b {
        let la = a.unicode_len();
        let lb = b.unicode_len();
        la < lb || (la == lb && lex_lt_exec(a, b))
    } else if num_a {
        true
    } else if num_b {
        false
    } else {
        lex_lt_exec(a, b)
    }
}

/// Compares two pre-release identifier lists.
fn pre_list_lt_exec(a: &Vec<String>, b: &Vec<String>) -> (r: bool)
    ensures
        r == pre_list_lt(idents_view(a@), idents_view(b@)),
{
    let ghost av = idents_view(a@);
    let ghost bv = idents_view(b@);
    let mut i: usize = 0;
    proof {
        assert(av.skip(0) =~= av);
        assert(bv.skip(0) =~= bv);
    }
    loop
        invariant
            av == idents_view(a@),
            bv == idents_view(b@),
            av.len() == a@.len(),
            bv.len() == b@.len(),
            i <= av.len(),
            i <= bv.len(),
            forall|j: int| 0 <= j < i ==> av[j] == bv[j],
            pre_list_lt(av, bv) == pre_list_lt(av.skip(i as int), bv.skip(i as int)),
        decreases av.len() - i,
    {
        if i >= b.len() {
            return false;
        }
        if i >= a.len() {
            return true;
        }
        let sa = &a[i];
        let sb = &b[i];
        if !crate::strutil::str_eq(sa.as_str(), sb.as_str()) {
            assert(av[i as int] != bv[i as int]);
            return ident_lt_exec(sa.as_str(), sb.as_str());
        }
        proof {
            assert(av[i as int] == bv[i as int]);
            assert(av.skip(i as int).skip(1) =~= av.skip(i as int + 1));
            assert(bv.skip(i as int).skip(1) =~= bv.skip(i as int + 1));
        }
        i += 1;
    }
}

/// Compares two pre-release parts, a release (empty part) coming last.
pub fn pre_lt_exec(a: &Vec<String>, b: &Vec<String>) -> (r: bool)
    ensures
        r == pre_lt(idents_view(a@), idents_view(b@)),
{
    if a.len() == 0 {
        false
    } else if b.len() == 0 {
        true
    } else {
        pre_list_lt_exec(a, b)
    }
}

impl Version {
    /// Compares two versions by semver precedence.
    pub fn lt(&self, other: &Version) -> (r: bool)
        ensures
            r == version_lt(*self, *other),
    {
        if self.major != other.major {
            self.major < other.major
        } else if self.minor != other.minor {
            self.minor < other.minor
        } else if self.patch != other.patch {
            self.patch < other.patch
        } else if self.pre.len() == 0 {
            false
        } else if other.pre.len() == 0 {
            true
        } else {
            pre_list_lt_exec(&self.pre, &other.pre)
        }
    }

    /// Compares two versions for precedence equality (build metadata is
    /// ignored).
    pub fn precedence_eq(&self, other: &Version) -> (r: bool)
        ensures
            r == version_eq(*self, *other),
    {
        if self.major != other.major || self.minor != other.minor || self.patch != other.patch {
            return false;
        }
        idents_eq(&self.pre, &other.pre)
    }
}

/// Compares two identifier lists for equality.
pub fn idents_eq(a: &Vec<String>, b: &Vec<String>) -> (r: bool)
    ensures
        r == (idents_view(a@) == idents_view(b@)),
{
    if a.len() != b.len() {
        proof {
            assert(idents_view(a@).len() != idents_view(b@).len());
        }
        return false;
    }
    let mut i: usize = 0;
    while i < a.len()
        invariant
            a@.len() == b@.len(),
            i <= a@.len(),
            forall|j: int| 0 <= j < i ==> (#[trigger] a@[j])@ == b@[j]@,
        decreases a@.len() - i,
    {
        if !crate::strutil::str_eq(a[i].as_str(), b[i].as_str()) {
            proof {
                assert(idents_view(a@)[i as int] != idents_view(b@)[i as int]);
            }
            return false;
        }
        i += 1;
    }
    proof {
        assert(idents_view(a@) =~= idents_view(b@));
    }
    true
}

} // verus!

use vstd::prelude::*;

verus! {

// ---------------------------------------------------------------------------
// Rendering
// ---------------------------------------------------------------------------

/// The character for one decimal digit.
pub open spec fn spec_digit_char(d: nat) -> char {
    if d == 0 { '0' } else if d == 1 { '1' } else if d == 2 { '2' } else if d == 3 { '3' }
    else if d == 4 { '4' } else if d == 5 { '5' } else if d == 6 { '6' } else if d == 7 { '7' }
    else if d == 8 { '8' } else { '9' }
}

/// The decimal rendering of a number, without leading zeros.
pub open spec fn spec_digits(n: nat) -> Seq<char>
    decreases n,
{
    if n < 10 {
        seq![spec_digit_char(n)]
    } else {
        spec_digits(n / 10).push(spec_digit_char(n % 10))
    }
}

/// Identifiers joined by a separator character.
pub open spec fn spec_join(l: Seq<Seq<char>>, sep: char) -> Seq<char>
    decreases l.len(),
{
    if l.len() == 0 {
        Seq::empty()
    } else if l.len() == 1 {
        l[0]
    } else {
        l[0] + seq![sep] + spec_join(l.skip(1), sep)
    }
}

/// The canonical rendering of a version:
/// `major.minor.patch[-pre.idents][+build.idents]`.
pub open spec fn spec_render_version(v: Version) -> Seq<char> {
    spec_digits(v.major as nat) + seq!['.'] + spec_digits(v.minor as nat) + seq!['.']
        + spec_digits(v.patch as nat)
        + (if v.pre@.len() > 0 { seq!['-'] + spec_join(v.pre_view(), '.') } else { Seq::empty() })
        + (if v.build@.len() > 0 {
            seq!['+'] + spec_join(idents_view(v.build@), '.')
        } else {
            Seq::empty()
        })
}

/// Joining splits off its last element.
pub proof fn lemma_spec_join_last(l: Seq<Seq<char>>, sep: char)
    requires
        l.len() >= 2,
    ensures
        spec_join(l, sep) == spec_join(l.take(l.len() - 1), sep) + seq![sep] + l.last(),
    decreases l.len(),
{
    if l.len() == 2 {
        assert(l.skip(1).len() == 1);
        assert(spec_join(l.skip(1), sep) == l.skip(1)[0]);
        assert(l.skip(1)[0] == l[1]);
        assert(l.take(1).len() == 1);
        assert(spec_join(l.take(1), sep) == l.take(1)[0]);
        assert(l.take(1)[0] == l[0]);
        assert(l.last() == l[1]);
        assert(spec_join(l, sep) == l[0] + seq![sep] + spec_join(l.skip(1), sep));
    } else {
        lemma_spec_join_last(l.skip(1), sep);
        assert(l.skip(1).take(l.len() - 2) =~= l.take(l.len() - 1).skip(1));
        assert(l.take(l.len() - 1)[0] == l[0]);
        assert(l.skip(1).last() == l.last());
        assert(spec_join(l.take(l.len() - 1), sep)
            == l[0] + seq![sep] + spec_join(l.take(l.len() - 1).skip(1), sep));
        assert(spec_join(l, sep)
            =~= spec_join(l.take(l.len() - 1), sep) + seq![sep] + l.last());
    }
}

/// One decimal digit as a string.
fn digit_str(d: u64) -> (r: &'static str)
    requires
        d < 10,
    ensures
        r@ =~= seq![spec_digit_char(d as nat)],
{
    proof {
        reveal_strlit("0");
        reveal_strlit("1");
        reveal_strlit("2");
        reveal_strlit("3");
        reveal_strlit("4");
        reveal_strlit("5");
        reveal_strlit("6");
        reveal_strlit("7");
        reveal_strlit("8");
        reveal_strlit("9");
    }
    if d == 0 { "0" } else if d == 1 { "1" } else if d == 2 { "2" } else if d == 3 { "3" }
    else if d == 4 { "4" } else if d == 5 { "5" } else if d == 6 { "6" } else if d == 7 { "7" }
    else if d == 8 { "8" } else { "9" }
}

/// Renders a number in decimal.
pub fn u64_to_string(n: u64) -> (r: String)
    ensures
        r@ == spec_digits(n as nat),
    decreases n,
{
    if n < 10 {
        String::from_str(digit_str(n))
    } else {
        proof {
            assert(n / 10 < n) by (nonlinear_arith)
                requires n >= 10,
            ;
        }
        let head = u64_to_string(n / 10);
        let r = head.concat(digit_str(n % 10));
        proof {
            assert(r@ =~= spec_digits(n as nat));
        }
        r
    }
}

/// Joins identifiers with `.`.
pub fn join_idents(v: &Vec<String>) -> (r: String)
    ensures
        r@ == spec_join(idents_view(v@), '.'),
{
    let ghost l = idents_view(v@);
    let mut out = String::new();
    let mut i: usize = 0;
    while i < v.len()
        invariant
            l == idents_view(v@),
            l.len() == v@.len(),
            i <= v@.len(),
            out@ == spec_join(l.take(i as int), '.'),
        decreases v@.len() - i,
    {
        if i > 0 {
            out.append(".");
            proof {
                reveal_strlit(".");
            }
        }
        out.append(v[i].as_str());
        proof {
            if i == 0 {
                assert(l.take(1).len() == 1);
                assert(l.take(1)[0] == l[0]);
                assert(out@ =~= spec_join(l.take(1), '.'));
            } else {
                lemma_spec_join_last(l.take(i as int + 1), '.');
                assert(l.take(i as int + 1).take(i as int) =~= l.take(i as int));
                assert(l.take(i as int + 1).last() == l[i as int]);
                assert(out@ =~= spec_join(l.take(i as int + 1), '.'));
            }
        }
        i += 1;
    }
    proof {
        assert(l.take(l.len() as int) =~= l);
    }
    out
}

/// Joins identifiers with `/`.
pub fn join_idents_slash(v: &Vec<String>) -> (r: String)
    ensures
        r@ == spec_join(idents_view(v@), '/'),
{
    let ghost l = idents_view(v@);
    let mut out = String::new();
    let mut i: usize = 0;
    while i < v.len()
        invariant
            l == idents_view(v@),
            l.len() == v@.len(),
            i <= v@.len(),
            out@ == spec_join(l.take(i as int), '/'),
        decreases v@.len() - i,
    {
        if i > 0 {
            out.append("/");
            proof {
                reveal_strlit("/");
            }
        }
        out.append(v[i].as_str());
        proof {
            if i == 0 {
                assert(l.take(1).len() == 1);
                assert(l.take(1)[0] == l[0]);
                assert(out@ =~= spec_join(l.take(1), '/'));
            } else {
                lemma_spec_join_last(l.take(i as int + 1), '/');
                assert(l.take(i as int + 1).take(i as int) =~= l.take(i as int));
                assert(l.take(i as int + 1).last() == l[i as int]);
                assert(out@ =~= spec_join(l.take(i as int + 1), '/'));
            }
        }
        i += 1;
    }
    proof {
        assert(l.take(l.len() as int) =~= l);
    }
    out
}

impl Version {
    /// Renders the canonical form of the version.
    pub fn render(&self) -> (r: String)
        ensures
            r@ == spec_render_version(*self),
    {
        let mut out = u64_to_string(self.major);
        out.append(".");
        let minor = u64_to_string(self.minor);
        out.append(minor.as_str());
        out.append(".");
        let patch = u64_to_string(self.patch);
        out.append(patch.as_str());
        proof {
            reveal_strlit(".");
        }
        if self.pre.len() > 0 {
            out.append("-");
            let pre = join_idents(&self.pre);
            out.append(pre.as_str());
            proof {
                reveal_strlit("-");
            }
        }
        if self.build.len() > 0 {
            out.append("+");
            let build = join_idents(&self.build);
            out.append(build.as_str());
            proof {
                reveal_strlit("+");
            }
        }
        proof {
            assert(out@ =~= spec_render_version(*self));
        }
        out
    }
}

// ---------------------------------------------------------------------------
// Parsing: a loose scan followed by a canonicality check, so that the parser
// accepts exactly the canonical rendering of a well-formed version.
// ---------------------------------------------------------------------------

/// Splits a string on a separator character. No contract: callers validate
/// whatever they build from the pieces.
pub fn split_on(s: &str, sep: char) -> (r: Vec<String>)
{
    let n = s.unicode_len();
    let mut out: Vec<String> = Vec::new();
    let mut start: usize = 0;
    let mut i: usize = 0;
    while i < n
        invariant
            n == s@.len(),
            i <= n,
            start <= i,
        decreases n - i,
    {
        if s.get_char(i) == sep {
            out.push(String::from_str(s.substring_char(start, i)));
            start = i + 1;
        }
        i += 1;
    }
    out.push(String::from_str(s.substring_char(start, n)));
    out
}

/// The position of the first occurrence of `sep`, if any.
pub fn find_char(s: &str, sep: char) -> (r: Option<usize>)
    ensures
        r matches Some(k) ==> k < s@.len(),
{
    let n = s.unicode_len();
    let mut i: usize = 0;
    while i < n
        invariant
            n == s@.len(),
            i <= n,
        decreases n - i,
    {
        if s.get_char(i) == sep {
            return Some(i);
        }
        i += 1;
    }
    None
}

/// Parses a digit string into a number; rejects non-digits and values that
/// do not fit. No contract beyond termination: the caller re-renders.
fn parse_u64_loose(s: &str) -> (r: Option<u64>)
{
    let n = s.unicode_len();
    if n == 0 {
        return None;
    }
    let mut value: u64 = 0;
    let mut i: usize = 0;
    while i < n
        invariant
            n == s@.len(),
            i <= n,
        decreases n - i,
    {
        let u = s.get_char(i) as u32;
        if !(48u32 <= u && u <= 57u32) {
            return None;
        }
        let d = (u - 48) as u64;
        if value > (u64::MAX - d) / 10 {
            return None;
        }
        value = value * 10 + d;
        i += 1;
    }
    Some(value)
}

/// Checks a pre-release identifier for validity.
pub fn check_ident(s: &str) -> (r: bool)
    ensures
        r == valid_ident(s@),
{
    let n = s.unicode_len();
    if n == 0 {
        return false;
    }
    let mut i: usize = 0;
    while i < n
        invariant
            n == s@.len(),
            i <= n,
            forall|j: int| 0 <= j < i ==> is_ident_char(#[trigger] s@[j]),
        decreases n - i,
    {
        let c = s.get_char(i);
        let u = c as u32;
        let ok = (97u32 <= u && u <= 122u32) || (65u32 <= u && u <= 90u32)
            || (48u32 <= u && u <= 57u32) || c == '-';
        if !ok {
            return false;
        }
        i += 1;
    }
    if n > 1 && is_num_ident_exec(s) && s.get_char(0) == '0' {
        return false;
    }
    true
}

/// Checks a build identifier for validity.
pub fn check_build_ident(s: &str) -> (r: bool)
    ensures
        r == valid_build_ident(s@),
{
    let n = s.unicode_len();
    if n == 0 {
        return false;
    }
    let mut i: usize = 0;
    while i < n
        invariant
            n == s@.len(),
            i <= n,
            forall|j: int| 0 <= j < i ==> is_ident_char(#[trigger] s@[j]),
        decreases n - i,
    {
        let c = s.get_char(i);
        let u = c as u32;
        let ok = (97u32 <= u && u <= 122u32) || (65u32 <= u && u <= 90u32)
            || (48u32 <= u && u <= 57u32) || c == '-';
        if !ok {
            return false;
        }
        i += 1;
    }
    true
}

impl Version {
    /// Parses a version. Accepts exactly the canonical rendering of a
    /// well-formed version: when parsing succeeds, re-rendering the result
    /// reproduces the input byte for byte.
    pub fn parse(s: &str) -> (r: Option<Version>)
        ensures
            r matches Some(v) ==> v.wf() && s@ == spec_render_version(v),
    {
        let n = s.unicode_len();
        // Split off build metadata at the first `+`.
        let (head, build_str) = match find_char(s, '+') {
            Some(k) => (s.substring_char(0, k), Some(s.substring_char(k + 1, n))),
            None => (s, None),
        };
        // Split off the pre-release part at the first `-`.
        let head_n = head.unicode_len();
        let (triple_str, pre_str) = match find_char(head, '-') {
            Some(k) => (head.substring_char(0, k), Some(head.substring_char(k + 1, head_n))),
            None => (head, None),
        };
        let triple = split_on(triple_str, '.');
        if triple.len() != 3 {
            return None;
        }
        let major = match parse_u64_loose(triple[0].as_str()) {
            Some(x) => x,
            None => { return None; },
        };
        let minor = match parse_u64_loose(triple[1].as_str()) {
            Some(x) => x,
            None => { return None; },
        };
        let patch = match parse_u64_loose(triple[2].as_str()) {
            Some(x) => x,
            None => { return None; },
        };
        let mut pre: Vec<String> = Vec::new();
        if let Some(p) = pre_str {
            let parts = split_on(p, '.');
            let mut i: usize = 0;
            while i < parts.len()
                invariant
                    i <= parts@.len(),
                    forall|j: int| 0 <= j < pre@.len() ==> valid_ident((#[trigger] pre@[j])@),
                decreases parts@.len() - i,
            {
                if !check_ident(parts[i].as_str()) {
                    return None;
                }
                let q = String::from_str(parts[i].as_str());
                pre.push(q);
                i += 1;
            }
        }
        let mut build: Vec<String> = Vec::new();
        if let Some(b) = build_str {
            let parts = split_on(b, '.');
            let mut i: usize = 0;
            while i < parts.len()
                invariant
                    i <= parts@.len(),
                    forall|j: int| 0 <= j < build@.len()
                        ==> valid_build_ident((#[trigger] build@[j])@),
                decreases parts@.len() - i,
            {
                if !check_build_ident(parts[i].as_str()) {
                    return None;
                }
                let q = String::from_str(parts[i].as_str());
                build.push(q);
                i += 1;
            }
        }
        let v = Version { major, minor, patch, pre, build };
        let canon = v.render();
        if crate::strutil::str_eq(canon.as_str(), s) {
            Some(v)
        } else {
            None
        }
    }
}

// ---------------------------------------------------------------------------
// Version identifiers
// ---------------------------------------------------------------------------

/// A version identifier: a version together with the target kind it was
/// built for. Entries with equal versions but different targets are
/// distinct.
#[derive(Clone, Debug)]
pub struct VersionId {
    /// The semantic version.
    pub version: Version,
    /// The target kind.
    pub target: crate::target::TargetKind,
}

impl VersionId {
    /// The version part is well-formed.
    pub open spec fn wf(&self) -> bool {
        self.version.wf()
    }

    /// The canonical `version target` rendering.
    pub open spec fn spec_render(&self) -> Seq<char> {
        spec_render_version(self.version) + seq![' '] + crate::target::spec_target_name(self.target)
    }

    /// The escaped `version+target` rendering, safe for file names.
    pub open spec fn spec_escaped(&self) -> Seq<char> {
        spec_render_version(self.version) + seq!['+'] + crate::target::spec_target_name(self.target)
    }

    /// Two identifiers are equal when their versions are precedence-equal
    /// with equal build metadata, and the targets agree.
    pub open spec fn key_eq(&self, other: &VersionId) -> bool {
        spec_render_version(self.version) == spec_render_version(other.version)
            && self.target == other.target
    }

    /// Renders the canonical `version target` form.
    pub fn render(&self) -> (r: String)
        ensures
            r@ == self.spec_render(),
    {
        let mut out = self.version.render();
        out.append(" ");
        out.append(self.target.as_str());
        proof {
            reveal_strlit(" ");
            assert(out@ =~= self.spec_render());
        }
        out
    }

    /// Renders the escaped `version+target` form.
    pub fn escaped(&self) -> (r: String)
        ensures
            r@ == self.spec_escaped(),
    {
        let mut out = self.version.render();
        out.append("+");
        out.append(self.target.as_str());
        proof {
            reveal_strlit("+");
            assert(out@ =~= self.spec_escaped());
        }
        out
    }

    /// Compares two identifiers for key equality.
    pub fn eq_id(&self, other: &VersionId) -> (r: bool)
        ensures
            r == self.key_eq(other),
    {
        let a = self.version.render();
        let b = other.version.render();
        crate::strutil::str_eq(a.as_str(), b.as_str()) && self.target == other.target
    }

    /// Parses the canonical `version target` form; accepts exactly the
    /// canonical rendering.
    pub fn parse(s: &str) -> (r: Option<VersionId>)
        ensures
            r matches Some(id) ==> id.wf() && s@ == id.spec_render(),
    {
        Self::parse_with_sep(s, ' ')
    }

    /// Parses the escaped `version+target` form; accepts exactly the
    /// escaped rendering.
    pub fn from_escaped(s: &str) -> (r: Option<VersionId>)
        ensures
            r matches Some(id) ==> id.wf() && s@ == id.spec_escaped(),
    {
        Self::parse_with_sep(s, '+')
    }

    /// Splits at the last occurrence of `sep` (build metadata may contain
    /// `+`), parses both sides, and re-renders to check canonicality.
    fn parse_with_sep(s: &str, sep: char) -> (r: Option<VersionId>)
        ensures
            r matches Some(id) ==> id.wf()
                && s@ == spec_render_version(id.version) + seq![sep]
                    + crate::target::spec_target_name(id.target),
    {
        let n = s.unicode_len();
        let mut last: Option<usize> = None;
        let mut i: usize = 0;
        while i < n
            invariant
                n == s@.len(),
                i <= n,
                last matches Some(k) ==> k < n && s@[k as int] == sep,
            decreases n - i,
        {
            if s.get_char(i) == sep {
                last = Some(i);
            }
            i += 1;
        }
        let k = match last {
            Some(k) => k,
            None => { return None; },
        };
        let version = match Version::parse(s.substring_char(0, k)) {
            Some(v) => v,
            None => { return None; },
        };
        let target = match crate::target::TargetKind::from_str(s.substring_char(k + 1, n)) {
            Some(t) => t,
            None => { return None; },
        };
        let id = VersionId { version, target };
        proof {
            assert(s@ =~= s@.subrange(0, k as int) + seq![sep] + s@.subrange(k as int + 1, n as int));
        }
        Some(id)
    }
}

} // verus!

verus! {

/// The mathematical content of a version: the numeric triple and the
/// pre-release and build identifier lists.
pub type VersionView = (u64, u64, u64, Seq<Seq<char>>, Seq<Seq<char>>);

impl Version {
    /// The version's view.
    pub open spec fn view_v(&self) -> VersionView {
        (self.major, self.minor, self.patch, idents_view(self.pre@), idents_view(self.build@))
    }

    /// Copies a version; the copy has the same view.
    pub fn clone_version(&self) -> (r: Version)
        ensures
            r.view_v() == self.view_v(),
            r.wf() == self.wf(),
    {
        let r = Version {
            major: self.major,
            minor: self.minor,
            patch: self.patch,
            pre: clone_idents(&self.pre),
            build: clone_idents(&self.build),
        };
        proof {
            lemma_idents_wf_from_view(r.pre@, self.pre@);
            lemma_idents_wf_from_view(r.build@, self.build@);
        }
        r
    }
}

/// Equal identifier views give equal validity.
pub proof fn lemma_idents_wf_from_view(a: Seq<String>, b: Seq<String>)
    requires
        idents_view(a) == idents_view(b),
    ensures
        (forall|i: int| 0 <= i < a.len() ==> valid_ident((#[trigger] a[i])@))
            == (forall|i: int| 0 <= i < b.len() ==> valid_ident((#[trigger] b[i])@)),
        (forall|i: int| 0 <= i < a.len() ==> valid_build_ident((#[trigger] a[i])@))
            == (forall|i: int| 0 <= i < b.len() ==> valid_build_ident((#[trigger] b[i])@)),
{
    assert(idents_view(a).len() == a.len());
    assert(idents_view(b).len() == b.len());
    assert(a.len() == b.len());
    assert forall|i: int| 0 <= i < a.len() implies a[i]@ == b[i]@ by {
        assert(idents_view(a)[i] == a[i]@);
        assert(idents_view(b)[i] == b[i]@);
    }
}

/// Copies an identifier list; the copy has the same view.
pub fn clone_idents(v: &Vec<String>) -> (r: Vec<String>)
    ensures
        idents_view(r@) == idents_view(v@),
{
    let mut out: Vec<String> = Vec::new();
    let mut i: usize = 0;
    while i < v.len()
        invariant
            i <= v@.len(),
            out@.len() == i,
            forall|j: int| 0 <= j < i ==> (#[trigger] out@[j])@ == v@[j]@,
        decreases v@.len() - i,
    {
        out.push(v[i].clone());
        i += 1;
    }
    proof {
        assert(idents_view(out@) =~= idents_view(v@));
    }
    out
}

/// The view of a version identifier.
pub type VersionIdView = (VersionView, crate::target::TargetKind);

impl VersionId {
    /// The identifier's view.
    pub open spec fn view_v(&self) -> VersionIdView {
        (self.version.view_v(), self.target)
    }

    /// Copies an identifier; the copy has the same view.
    pub fn clone_id(&self) -> (r: VersionId)
        ensures
            r.view_v() == self.view_v(),
            r.wf() == self.wf(),
    {
        VersionId { version: self.version.clone_version(), target: self.target }
    }
}

} // verus!
