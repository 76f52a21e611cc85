//! Version requirements: comma-separated comparators in the style of cargo
//! (`^1.0`, `>=1.2.3, <2`), with the usual pre-release gating.

use vstd::prelude::*;
use crate::version::{
    Version, idents_view, pre_lt, valid_ident, spec_digits, spec_join, u64_to_string,
    join_idents, split_on, check_ident, pre_lt_exec, idents_eq, find_char,
};

verus! {

/// A comparison operator of one comparator.
#[derive(Clone, Copy, PartialEq, Eq, Structural, Debug)]
pub enum Op {
    /// `=`: equal on every written component.
    Exact,
    /// `>`.
    Greater,
    /// `>=`.
    GreaterEq,
    /// `<`.
    Less,
    /// `<=`.
    LessEq,
    /// `~`: patch-level flexibility.
    Tilde,
    /// `^`: no change of the leftmost non-zero component (the default when a
    /// requirement is written without an operator).
    Caret,
    /// `1.*` style wildcards.
    Wildcard,
}

/// One comparator: an operator applied to a partial version.
#[derive(Clone, Debug)]
pub struct Comparator {
    /// The operator.
    pub op: Op,
    /// The major component; always written.
    pub major: u64,
    /// The minor component, when written.
    pub minor: Option<u64>,
    /// The patch component, when written (only with minor).
    pub patch: Option<u64>,
    /// The pre-release identifiers, when written (only with patch).
    pub pre: Vec<String>,
}

impl Comparator {
    /// Structural validity: patch only with minor, pre only with patch, and
    /// valid pre-release identifiers.
    pub open spec fn wf(&self) -> bool {
        &&& (self.patch is Some ==> self.minor is Some)
        &&& (self.pre@.len() > 0 ==> self.patch is Some)
        &&& forall|i: int| 0 <= i < self.pre@.len() ==> valid_ident((#[trigger] self.pre@[i])@)
    }

    /// The pre-release identifiers as character sequences.
    pub open spec fn pre_view(&self) -> Seq<Seq<char>> {
        idents_view(self.pre@)
    }
}

/// A version requirement: the conjunction of its comparators. An empty
/// list (written `*`) matches every release.
#[derive(Clone, Debug)]
pub struct VersionReq {
    /// The comparators, all of which must match.
    pub comparators: Vec<Comparator>,
}

/// Whether `v` satisfies one comparator, ignoring pre-release gating.
pub open spec fn spec_matches_comparator(v: Version, c: Comparator) -> bool {
    match c.op {
        Op::Exact => {
            &&& v.major == c.major
            &&& (c.minor matches Some(m) ==> v.minor == m)
            &&& (c.patch matches Some(p) ==> v.patch == p && v.pre_view() == c.pre_view())
        },
        Op::Greater => {
            if v.major != c.major {
                v.major > c.major
            } else if c.minor is None {
                false
            } else if v.minor != c.minor->0 {
                v.minor > c.minor->0
            } else if c.patch is None {
                false
            } else if v.patch != c.patch->0 {
                v.patch > c.patch->0
            } else {
                pre_lt(c.pre_view(), v.pre_view())
            }
        },
        Op::GreaterEq => {
            if v.major != c.major {
                v.major > c.major
            } else if c.minor is None {
                true
            } else if v.minor != c.minor->0 {
                v.minor > c.minor->0
            } else if c.patch is None {
                true
            } else if v.patch != c.patch->0 {
                v.patch > c.patch->0
            } else {
                !pre_lt(v.pre_view(), c.pre_view())
            }
        },
        Op::Less => {
            if v.major != c.major {
                v.major < c.major
            } else if c.minor is None {
                false
            } else if v.minor != c.minor->0 {
                v.minor < c.minor->0
            } else if c.patch is None {
                false
            } else if v.patch != c.patch->0 {
                v.patch < c.patch->0
            } else {
                pre_lt(v.pre_view(), c.pre_view())
            }
        },
        Op::LessEq => {
            if v.major != c.major {
                v.major < c.major
            } else if c.minor is None {
                true
            } else if v.minor != c.minor->0 {
                v.minor < c.minor->0
            } else if c.patch is None {
                true
            } else if v.patch != c.patch->0 {
                v.patch < c.patch->0
            } else {
                !pre_lt(c.pre_view(), v.pre_view())
            }
        },
        Op::Tilde => {
            if v.major != c.major {
                false
            } else if c.minor is None {
                true
            } else if v.minor != c.minor->0 {
                false
            } else if c.patch is None {
                true
            } else if v.patch != c.patch->0 {
                v.patch > c.patch->0
            } else {
                !pre_lt(v.pre_view(), c.pre_view())
            }
        },
        Op::Caret => {
            if v.major != c.major {
                false
            } else if c.minor is None {
                true
            } else if c.patch is None {
                if c.major > 0 {
                    v.minor >= c.minor->0
                } else {
                    v.minor == c.minor->0
                }
            } else if c.major > 0 {
                if v.minor != c.minor->0 {
                    v.minor > c.minor->0
                } else if v.patch != c.patch->0 {
                    v.patch > c.patch->0
                } else {
                    !pre_lt(v.pre_view(), c.pre_view())
                }
            } else if c.minor->0 > 0 {
                if v.minor != c.minor->0 {
                    false
                } else if v.patch != c.patch->0 {
                    v.patch > c.patch->0
                } else {
                    !pre_lt(v.pre_view(), c.pre_view())
                }
            } else {
                if v.minor != c.minor->0 || v.patch != c.patch->0 {
                    false
                } else {
                    !pre_lt(v.pre_view(), c.pre_view())
                }
            }
        },
        Op::Wildcard => {
            if c.minor is None {
                v.major == c.major
            } else if c.patch is None {
                v.major == c.major && v.minor == c.minor->0
            } else {
                v.major == c.major && v.minor == c.minor->0 && v.patch == c.patch->0
            }
        },
    }
}

/// Whether a comparator licenses pre-releases of `v`'s triple: it names the
/// same triple and itself carries a pre-release.
pub open spec fn spec_pre_compatible(c: Comparator, v: Version) -> bool {
    c.major == v.major && c.minor == Some(v.minor) && c.patch == Some(v.patch)
        && c.pre@.len() > 0
}

/// Whether `v` satisfies the requirement: every comparator matches, and a
/// pre-release additionally needs some comparator that licenses its triple.
pub open spec fn spec_matches(v: Version, r: VersionReq) -> bool {
    &&& forall|i: int| 0 <= i < r.comparators@.len()
        ==> spec_matches_comparator(v, #[trigger] r.comparators@[i])
    &&& (v.pre@.len() > 0 ==> exists|i: int|
        0 <= i < r.comparators@.len() && spec_pre_compatible(#[trigger] r.comparators@[i], v))
}

fn matches_comparator(v: &Version, c: &Comparator) -> (r: bool)
    ensures
        r == spec_matches_comparator(*v, *c),
{
    match c.op {
        Op::Exact => {
            if v.major != c.major {
                return false;
            }
            if let Some(m) = c.minor {
                if v.minor != m {
                    return false;
                }
            }
            if let Some(p) = c.patch {
                if v.patch != p {
                    return false;
                }
                if !idents_eq(&v.pre, &c.pre) {
                    return false;
                }
            }
            true
        },
        Op::Greater => {
            if v.major != c.major {
                v.major > c.major
            } else {
                match c.minor {
                    None => false,
                    Some(m) => {
                        if v.minor != m {
                            v.minor > m
                        } else {
                            match c.patch {
                                None => false,
                                Some(p) => {
                                    if v.patch != p {
                                        v.patch > p
                                    } else {
                                        pre_lt_exec(&c.pre, &v.pre)
                                    }
                                },
                            }
                        }
                    },
                }
            }
        },
        Op::GreaterEq => {
            if v.major != c.major {
                v.major > c.major
            } else {
                match c.minor {
                    None => true,
                    Some(m) => {
                        if v.minor != m {
                            v.minor > m
                        } else {
                            match c.patch {
                                None => true,
                                Some(p) => {
                                    if v.patch != p {
                                        v.patch > p
                                    } else {
                                        !pre_lt_exec(&v.pre, &c.pre)
                                    }
                                },
                            }
                        }
                    },
                }
            }
        },
        Op::Less => {
            if v.major != c.major {
                v.major < c.major
            } else {
                match c.minor {
                    None => false,
                    Some(m) => {
                        if v.minor != m {
                            v.minor < m
                        } else {
                            match c.patch {
                                None => false,
                                Some(p) => {
                                    if v.patch != p {
                                        v.patch < p
                                    } else {
                                        pre_lt_exec(&v.pre, &c.pre)
                                    }
                                },
                            }
                        }
                    },
                }
            }
        },
        Op::LessEq => {
            if v.major != c.major {
                v.major < c.major
            } else {
                match c.minor {
                    None => true,
                    Some(m) => {
                        if v.minor != m {
                            v.minor < m
                        } else {
                            match c.patch {
                                None => true,
                                Some(p) => {
                                    if v.patch != p {
                                        v.patch < p
                                    } else {
                                        !pre_lt_exec(&c.pre, &v.pre)
                                    }
                                },
                            }
                        }
                    },
                }
            }
        },
        Op::Tilde => {
            if v.major != c.major {
                false
            } else {
                match c.minor {
                    None => true,
                    Some(m) => {
                        if v.minor != m {
                            false
                        } else {
                            match c.patch {
                                None => true,
                                Some(p) => {
                                    if v.patch != p {
                                        v.patch > p
                                    } else {
                                        !pre_lt_exec(&v.pre, &c.pre)
                                    }
                                },
                            }
                        }
                    },
                }
            }
        },
        Op::Caret => {
            if v.major != c.major {
                false
            } else {
                match c.minor {
                    None => true,
                    Some(m) => {
                        match c.patch {
                            None => {
                                if c.major > 0 {
                                    v.minor >= m
                                } else {
                                    v.minor == m
                                }
                            },
                            Some(p) => {
                                if c.major > 0 {
                                    if v.minor != m {
                                        v.minor > m
                                    } else if v.patch != p {
                                        v.patch > p
                                    } else {
                                        !pre_lt_exec(&v.pre, &c.pre)
                                    }
                                } else if m > 0 {
                                    if v.minor != m {
                                        false
                                    } else if v.patch != p {
                                        v.patch > p
                                    } else {
                                        !pre_lt_exec(&v.pre, &c.pre)
                                    }
                                } else {
                                    if v.minor != m || v.patch != p {
                                        false
                                    } else {
                                        !pre_lt_exec(&v.pre, &c.pre)
                                    }
                                }
                            },
                        }
                    },
                }
            }
        },
        Op::Wildcard => {
            match c.minor {
                None => v.major == c.major,
                Some(m) => {
                    match c.patch {
                        None => v.major == c.major && v.minor == m,
                        Some(p) => v.major == c.major && v.minor == m && v.patch == p,
                    }
                },
            }
        },
    }
}

impl VersionReq {
    /// All comparators are structurally valid.
    pub open spec fn wf(&self) -> bool {
        forall|i: int| 0 <= i < self.comparators@.len() ==> (#[trigger] self.comparators@[i]).wf()
    }

    /// The requirement that matches every release: an empty comparator
    /// list, written `*`.
    pub fn any() -> (r: VersionReq)
        ensures
            r.wf(),
            r.comparators@.len() == 0,
    {
        VersionReq { comparators: Vec::new() }
    }

    /// Whether `v` satisfies this requirement.
    pub fn matches(&self, v: &Version) -> (r: bool)
        ensures
            r == spec_matches(*v, *self),
    {
        let mut i: usize = 0;
        while i < self.comparators.len()
            invariant
                i <= self.comparators@.len(),
                forall|j: int| 0 <= j < i
                    ==> spec_matches_comparator(*v, #[trigger] self.comparators@[j]),
            decreases self.comparators@.len() - i,
        {
            if !matches_comparator(v, &self.comparators[i]) {
                return false;
            }
            i += 1;
        }
        if v.pre.len() == 0 {
            return true;
        }
        let mut i: usize = 0;
        while i < self.comparators.len()
            invariant
                i <= self.comparators@.len(),
                forall|j: int| 0 <= j < self.comparators@.len()
                    ==> spec_matches_comparator(*v, #[trigger] self.comparators@[j]),
                v.pre@.len() > 0,
                forall|j: int| 0 <= j < i
                    ==> !spec_pre_compatible(#[trigger] self.comparators@[j], *v),
            decreases self.comparators@.len() - i,
        {
            let c = &self.comparators[i];
            let minor_ok = match c.minor {
                Some(m) => m == v.minor,
                None => false,
            };
            let patch_ok = match c.patch {
                Some(p) => p == v.patch,
                None => false,
            };
            if c.major == v.major && minor_ok && patch_ok && c.pre.len() > 0 {
                return true;
            }
            i += 1;
        }
        false
    }
}

} // verus!

verus! {

// ---------------------------------------------------------------------------
// Rendering and parsing
// ---------------------------------------------------------------------------

/// The operator's textual prefix.
pub open spec fn spec_op_str(op: Op) -> Seq<char> {
    match op {
        Op::Exact => "="@,
        Op::Greater => ">"@,
        Op::GreaterEq => ">="@,
        Op::Less => "<"@,
        Op::LessEq => "<="@,
        Op::Tilde => "~"@,
        Op::Caret => "^"@,
        Op::Wildcard => ""@,
    }
}

/// The canonical rendering of one comparator.
pub open spec fn spec_render_comparator(c: Comparator) -> Seq<char> {
    spec_op_str(c.op) + spec_digits(c.major as nat)
        + (match c.minor {
            Some(m) => seq!['.'] + spec_digits(m as nat)
                + (match c.patch {
                    Some(p) => seq!['.'] + spec_digits(p as nat)
                        + (if c.pre@.len() > 0 {
                            seq!['-'] + spec_join(c.pre_view(), '.')
                        } else {
                            Seq::empty()
                        }),
                    None => if c.op is Wildcard { seq!['.'] + seq!['*'] } else { Seq::empty() },
                }),
            None => if c.op is Wildcard { seq!['.'] + seq!['*'] } else { Seq::empty() },
        })
}

/// The canonical rendering of a comparator list, joined by `, `.
pub open spec fn spec_render_comps(l: Seq<Comparator>) -> Seq<char>
    decreases l.len(),
{
    if l.len() == 0 {
        Seq::empty()
    } else if l.len() == 1 {
        spec_render_comparator(l[0])
    } else {
        spec_render_comparator(l[0]) + ", "@ + spec_render_comps(l.skip(1))
    }
}

/// The canonical rendering of a requirement; the empty requirement is `*`.
pub open spec fn spec_render_req(r: VersionReq) -> Seq<char> {
    if r.comparators@.len() == 0 {
        "*"@
    } else {
        spec_render_comps(r.comparators@)
    }
}

/// Rendering a comparator list splits off its last element.
proof fn lemma_render_comps_last(l: Seq<Comparator>)
    requires
        l.len() >= 2,
    ensures
        spec_render_comps(l) == spec_render_comps(l.take(l.len() - 1)) + ", "@
            + spec_render_comparator(l.last()),
    decreases l.len(),
{
    if l.len() == 2 {
        assert(l.skip(1).len() == 1);
        assert(spec_render_comps(l.skip(1)) == spec_render_comparator(l.skip(1)[0]));
        assert(l.skip(1)[0] == l[1]);
        assert(l.take(1).len() == 1);
        assert(spec_render_comps(l.take(1)) == spec_render_comparator(l.take(1)[0]));
        assert(l.take(1)[0] == l[0]);
    } else {
        lemma_render_comps_last(l.skip(1));
        assert(l.skip(1).take(l.len() - 2) =~= l.take(l.len() - 1).skip(1));
        assert(l.take(l.len() - 1)[0] == l[0]);
        assert(l.skip(1).last() == l.last());
        assert(spec_render_comps(l.take(l.len() - 1))
            == spec_render_comparator(l[0]) + ", "@
                + spec_render_comps(l.take(l.len() - 1).skip(1)));
        assert(spec_render_comps(l)
            =~= spec_render_comps(l.take(l.len() - 1)) + ", "@
                + spec_render_comparator(l.last()));
    }
}

fn op_str(op: Op) -> (r: &'static str)
    ensures
        r@ == spec_op_str(op),
{
    proof {
        reveal_strlit("=");
        reveal_strlit(">");
        reveal_strlit(">=");
        reveal_strlit("<");
        reveal_strlit("<=");
        reveal_strlit("~");
        reveal_strlit("^");
        reveal_strlit("");
    }
    match op {
        Op::Exact => "=",
        Op::Greater => ">",
        Op::GreaterEq => ">=",
        Op::Less => "<",
        Op::LessEq => "<=",
        Op::Tilde => "~",
        Op::Caret => "^",
        Op::Wildcard => "",
    }
}

fn render_comparator(c: &Comparator) -> (r: String)
    ensures
        r@ == spec_render_comparator(*c),
{
    let mut out = String::from_str(op_str(c.op));
    let major = u64_to_string(c.major);
    out.append(major.as_str());
    proof {
        reveal_strlit(".");
        reveal_strlit(".*");
        reveal_strlit("-");
    }
    match c.minor {
        None => {
            if matches!(c.op, Op::Wildcard) {
                out.append(".*");
                proof {
                    assert(".*"@ =~= seq!['.'] + seq!['*']);
                }
            }
        },
        Some(m) => {
            out.append(".");
            let minor = u64_to_string(m);
            out.append(minor.as_str());
            match c.patch {
                None => {
                    if matches!(c.op, Op::Wildcard) {
                        out.append(".*");
                        proof {
                            assert(".*"@ =~= seq!['.'] + seq!['*']);
                        }
                    }
                },
                Some(p) => {
                    out.append(".");
                    let patch = u64_to_string(p);
                    out.append(patch.as_str());
                    if c.pre.len() > 0 {
                        out.append("-");
                        let pre = join_idents(&c.pre);
                        out.append(pre.as_str());
                    }
                },
            }
        },
    }
    proof {
        assert(out@ =~= spec_render_comparator(*c));
    }
    out
}

impl VersionReq {
    /// Renders the canonical form of the requirement.
    pub fn render(&self) -> (r: String)
        ensures
            r@ == spec_render_req(*self),
    {
        if self.comparators.len() == 0 {
            return String::from_str("*");
        }
        let ghost l = self.comparators@;
        let mut out = String::new();
        let mut i: usize = 0;
        while i < self.comparators.len()
            invariant
                l == self.comparators@,
                i <= l.len(),
                l.len() > 0,
                out@ == spec_render_comps(l.take(i as int)),
            decreases l.len() - i,
        {
            if i > 0 {
                out.append(", ");
            }
            let c = render_comparator(&self.comparators[i]);
            out.append(c.as_str());
            proof {
                if i == 0 {
                    assert(l.take(1).len() == 1);
                    assert(l.take(1)[0] == l[0]);
                    assert(out@ =~= spec_render_comps(l.take(1)));
                } else {
                    lemma_render_comps_last(l.take(i as int + 1));
                    assert(l.take(i as int + 1).take(i as int) =~= l.take(i as int));
                    assert(l.take(i as int + 1).last() == l[i as int]);
                    assert(out@ =~= spec_render_comps(l.take(i as int + 1)));
                }
            }
            i += 1;
        }
        proof {
            assert(l.take(l.len() as int) =~= l);
        }
        out
    }

    /// Parses a requirement: comma-separated comparators, each an optional
    /// operator (`^` being the default) followed by a partial version, or a
    /// lone `*`. Succeeds only on structurally valid input.
    pub fn parse(s: &str) -> (r: Option<VersionReq>)
        ensures
            r matches Some(q) ==> q.wf(),
    {
        let t = trim_spaces(s);
        proof {
            reveal_strlit("*");
        }
        if crate::strutil::str_eq(t.as_str(), "*") {
            return Some(VersionReq::any());
        }
        let parts = split_on(t.as_str(), ',');
        let mut comparators: Vec<Comparator> = Vec::new();
        let mut i: usize = 0;
        while i < parts.len()
            invariant
                i <= parts@.len(),
                forall|j: int| 0 <= j < comparators@.len()
                    ==> (#[trigger] comparators@[j]).wf(),
            decreases parts@.len() - i,
        {
            let c = match parse_comparator(parts[i].as_str()) {
                Some(c) => c,
                None => { return None; },
            };
            comparators.push(c);
            i += 1;
        }
        if comparators.len() == 0 {
            return None;
        }
        Some(VersionReq { comparators })
    }
}

/// Strips leading and trailing spaces. No contract: callers validate what
/// they build from the result.
pub fn trim_spaces(s: &str) -> (r: String)
{
    let n = s.unicode_len();
    let mut start: usize = 0;
    while start < n
        invariant
            n == s@.len(),
            start <= n,
        decreases n - start,
    {
        if s.get_char(start) != ' ' {
            break;
        }
        start += 1;
    }
    let mut end: usize = n;
    while end > start
        invariant
            n == s@.len(),
            start <= end,
            end <= n,
        decreases end,
    {
        if s.get_char(end - 1) != ' ' {
            break;
        }
        end -= 1;
    }
    String::from_str(s.substring_char(start, end))
}

/// Parses one comparator. Succeeds only on a structurally valid comparator.
fn parse_comparator(s: &str) -> (r: Option<Comparator>)
    ensures
        r matches Some(c) ==> c.wf(),
{
    let t = trim_spaces(s);
    let ts = t.as_str();
    let n = ts.unicode_len();
    if n == 0 {
        return None;
    }
    // Read the operator prefix.
    let c0 = ts.get_char(0);
    let (explicit_op, rest_start): (Option<Op>, usize) = if c0 == '=' {
        (Some(Op::Exact), 1)
    } else if c0 == '>' {
        if n >= 2 && ts.get_char(1) == '=' {
            (Some(Op::GreaterEq), 2)
        } else {
            (Some(Op::Greater), 1)
        }
    } else if c0 == '<' {
        if n >= 2 && ts.get_char(1) == '=' {
            (Some(Op::LessEq), 2)
        } else {
            (Some(Op::Less), 1)
        }
    } else if c0 == '~' {
        (Some(Op::Tilde), 1)
    } else if c0 == '^' {
        (Some(Op::Caret), 1)
    } else {
        (None, 0)
    };
    if rest_start >= n {
        return None;
    }
    let rest_t = trim_spaces(ts.substring_char(rest_start, n));
    let rest = rest_t.as_str();
    let rn = rest.unicode_len();
    if rn == 0 {
        return None;
    }
    // Build metadata has no meaning in a requirement; reject it.
    if find_char(rest, '+').is_some() {
        return None;
    }
    // Split off a pre-release part at the first `-`.
    let (vpart_s, pre_str) = match find_char(rest, '-') {
        Some(k) => (
            String::from_str(rest.substring_char(0, k)),
            Some(String::from_str(rest.substring_char(k + 1, rn))),
        ),
        None => (String::from_str(rest), None),
    };
    let comps = split_on(vpart_s.as_str(), '.');
    if comps.len() == 0 || comps.len() > 3 {
        return None;
    }
    let major = match parse_u64_pub(comps[0].as_str()) {
        Some(x) => x,
        None => { return None; },
    };
    let mut minor: Option<u64> = None;
    let mut patch: Option<u64> = None;
    let mut wildcard = false;
    proof {
        reveal_strlit("*");
    }
    if comps.len() >= 2 {
        if crate::strutil::str_eq(comps[1].as_str(), "*") {
            if comps.len() == 3 {
                return None;
            }
            wildcard = true;
        } else {
            minor = match parse_u64_pub(comps[1].as_str()) {
                Some(x) => Some(x),
                None => { return None; },
            };
        }
    }
    if comps.len() == 3 {
        if crate::strutil::str_eq(comps[2].as_str(), "*") {
            wildcard = true;
        } else {
            patch = match parse_u64_pub(comps[2].as_str()) {
                Some(x) => Some(x),
                None => { return None; },
            };
        }
    }
    let mut pre: Vec<String> = Vec::new();
    if let Some(p) = pre_str {
        if patch.is_none() {
            return None;
        }
        let idents = split_on(p.as_str(), '.');
        let mut i: usize = 0;
        while i < idents.len()
            invariant
                i <= idents@.len(),
                forall|j: int| 0 <= j < pre@.len() ==> valid_ident((#[trigger] pre@[j])@),
            decreases idents@.len() - i,
        {
            if !check_ident(idents[i].as_str()) {
                return None;
            }
            let q = String::from_str(idents[i].as_str());
            pre.push(q);
            i += 1;
        }
    }
    let op = if wildcard {
        if explicit_op.is_some() {
            return None;
        }
        Op::Wildcard
    } else {
        match explicit_op {
            Some(o) => o,
            None => Op::Caret,
        }
    };
    Some(Comparator { op, major, minor, patch, pre })
}

/// Parses a digit string into a number; rejects non-digits and values that
/// do not fit.
pub fn parse_u64_pub(s: &str) -> (r: Option<u64>)
{
    let n = s.unicode_len();
    if n == 0 {
        return None;
    }
    let mut value: u64 = 0;
    let mut i: usize = 0;
    while i < n
        invariant
            n == s@.len(),
            i <= n,
        decreases n - i,
    {
        let u = s.get_char(i) as u32;
        if !(48u32 <= u && u <= 57u32) {
            return None;
        }
        let d = (u - 48) as u64;
        if value > (u64::MAX - d) / 10 {
            return None;
        }
        value = value * 10 + d;
        i += 1;
    }
    Some(value)
}

} // verus!

verus! {

/// The view of one comparator.
pub type CompView = (Op, u64, Option<u64>, Option<u64>, Seq<Seq<char>>);

impl Comparator {
    /// The comparator's view.
    pub open spec fn view_v(&self) -> CompView {
        (self.op, self.major, self.minor, self.patch, idents_view(self.pre@))
    }

    /// Copies a comparator; the copy has the same view.
    pub fn clone_comp(&self) -> (r: Comparator)
        ensures
            r.view_v() == self.view_v(),
    {
        Comparator {
            op: self.op,
            major: self.major,
            minor: self.minor,
            patch: self.patch,
            pre: crate::version::clone_idents(&self.pre),
        }
    }
}

/// The view of a requirement: its comparators' views.
pub type ReqView = Seq<CompView>;

impl VersionReq {
    /// The requirement's view.
    pub open spec fn view_v(&self) -> ReqView {
        self.comparators@.map_values(|c: Comparator| c.view_v())
    }

    /// Copies a requirement; the copy has the same view.
    pub fn clone_req(&self) -> (r: VersionReq)
        ensures
            r.view_v() == self.view_v(),
    {
        let mut comparators: Vec<Comparator> = Vec::new();
        let mut i: usize = 0;
        while i < self.comparators.len()
            invariant
                i <= self.comparators@.len(),
                comparators@.len() == i,
                forall|j: int| 0 <= j < i
                    ==> (#[trigger] comparators@[j]).view_v() == self.comparators@[j].view_v(),
            decreases self.comparators@.len() - i,
        {
            comparators.push(self.comparators[i].clone_comp());
            i += 1;
        }
        let r = VersionReq { comparators };
        proof {
            assert(r.view_v() =~= self.view_v());
        }
        r
    }
}

/// Matching is a function of the views: requirements with equal views
/// match the same versions.
pub proof fn lemma_matches_congruent(v: Version, a: VersionReq, b: VersionReq)
    requires
        a.view_v() == b.view_v(),
    ensures
        spec_matches(v, a) == spec_matches(v, b),
{
    assert(a.view_v().len() == a.comparators@.len());
    assert(b.view_v().len() == b.comparators@.len());
    assert(a.comparators@.len() == b.comparators@.len());
    assert forall|i: int| 0 <= i < a.comparators@.len()
        implies comp_congruent(v, #[trigger] a.comparators@[i], b.comparators@[i]) by {
        assert(a.view_v()[i] == a.comparators@[i].view_v());
        assert(b.view_v()[i] == b.comparators@[i].view_v());
        let ca = a.comparators@[i];
        let cb = b.comparators@[i];
        assert(ca.view_v() == cb.view_v());
        assert(idents_view(ca.pre@).len() == ca.pre@.len());
        assert(idents_view(cb.pre@).len() == cb.pre@.len());
    }
    assert(spec_matches(v, a) ==> spec_matches(v, b)) by {
        if spec_matches(v, a) {
            assert forall|i: int| 0 <= i < b.comparators@.len()
                implies spec_matches_comparator(v, #[trigger] b.comparators@[i]) by {
                assert(spec_matches_comparator(v, a.comparators@[i]));
            }
            if v.pre@.len() > 0 {
                let i = choose|i: int| 0 <= i < a.comparators@.len()
                    && spec_pre_compatible(#[trigger] a.comparators@[i], v);
                assert(spec_pre_compatible(b.comparators@[i], v));
            }
        }
    }
    assert(spec_matches(v, b) ==> spec_matches(v, a)) by {
        if spec_matches(v, b) {
            assert forall|i: int| 0 <= i < a.comparators@.len()
                implies spec_matches_comparator(v, #[trigger] a.comparators@[i]) by {
                assert(spec_matches_comparator(v, b.comparators@[i]));
            }
            if v.pre@.len() > 0 {
                let i = choose|i: int| 0 <= i < b.comparators@.len()
                    && spec_pre_compatible(#[trigger] b.comparators@[i], v);
                assert(spec_pre_compatible(a.comparators@[i], v));
            }
        }
    }
}

/// One comparator pair with equal views behaves the same on `v`.
pub open spec fn comp_congruent(v: Version, a: Comparator, b: Comparator) -> bool {
    (spec_matches_comparator(v, a) == spec_matches_comparator(v, b))
        && (spec_pre_compatible(a, v) == spec_pre_compatible(b, v))
}

/// Validity is a function of the view as well.
pub proof fn lemma_wf_congruent(a: VersionReq, b: VersionReq)
    requires
        a.view_v() == b.view_v(),
    ensures
        a.wf() == b.wf(),
{
    assert(a.view_v().len() == a.comparators@.len());
    assert(b.view_v().len() == b.comparators@.len());
    assert(a.comparators@.len() == b.comparators@.len());
    assert forall|i: int| 0 <= i < a.comparators@.len()
        implies (#[trigger] a.comparators@[i]).wf() == b.comparators@[i].wf() by {
        assert(a.view_v()[i] == a.comparators@[i].view_v());
        assert(b.view_v()[i] == b.comparators@[i].view_v());
        let ca = a.comparators@[i];
        let cb = b.comparators@[i];
        assert(ca.view_v() == cb.view_v());
        assert(idents_view(ca.pre@).len() == ca.pre@.len());
        assert(idents_view(cb.pre@).len() == cb.pre@.len());
        crate::version::lemma_idents_wf_from_view(ca.pre@, cb.pre@);
    }
    assert(a.wf() ==> b.wf()) by {
        if a.wf() {
            assert forall|i: int| 0 <= i < b.comparators@.len()
                implies (#[trigger] b.comparators@[i]).wf() by {
                assert(a.comparators@[i].wf());
            }
        }
    }
    assert(b.wf() ==> a.wf()) by {
        if b.wf() {
            assert forall|i: int| 0 <= i < a.comparators@.len()
                implies (#[trigger] a.comparators@[i]).wf() by {
                assert(b.comparators@[i].wf());
            }
        }
    }
}

} // verus!

verus! {

/// Matching is also a function of the version's view.
pub proof fn lemma_matches_version_congruent(a: Version, b: Version, r: VersionReq)
    requires
        a.view_v() == b.view_v(),
    ensures
        spec_matches(a, r) == spec_matches(b, r),
{
    assert(idents_view(a.pre@).len() == a.pre@.len());
    assert(idents_view(b.pre@).len() == b.pre@.len());
    assert(a.pre_view() == b.pre_view());
    assert forall|i: int| 0 <= i < r.comparators@.len()
        implies spec_matches_comparator(a, #[trigger] r.comparators@[i])
            == spec_matches_comparator(b, r.comparators@[i])
            && spec_pre_compatible(r.comparators@[i], a)
                == spec_pre_compatible(r.comparators@[i], b) by {
    }
    assert(spec_matches(a, r) ==> spec_matches(b, r)) by {
        if spec_matches(a, r) {
            if b.pre@.len() > 0 {
                let i = choose|i: int| 0 <= i < r.comparators@.len()
                    && spec_pre_compatible(#[trigger] r.comparators@[i], a);
                assert(spec_pre_compatible(r.comparators@[i], b));
            }
        }
    }
    assert(spec_matches(b, r) ==> spec_matches(a, r)) by {
        if spec_matches(b, r) {
            if a.pre@.len() > 0 {
                let i = choose|i: int| 0 <= i < r.comparators@.len()
                    && spec_pre_compatible(#[trigger] r.comparators@[i], b);
                assert(spec_pre_compatible(r.comparators@[i], a));
            }
        }
    }
}

} // verus!
