//! Package names: a `(scope, name)` pair of lowercase alphanumeric-plus-hyphen
//! segments, rendered `scope/name` and escaped `scope+name` for filesystem use.

use vstd::prelude::*;

verus! {

/// Characters allowed in a name segment: lowercase letters, digits, hyphen.
pub open spec fn is_name_char(c: char) -> bool {
    ('a' as u32 <= c as u32 && c as u32 <= 'z' as u32)
        || ('0' as u32 <= c as u32 && c as u32 <= '9' as u32)
        || c == '-'
}

/// A valid name segment: non-empty and made of name characters only.
pub open spec fn valid_segment(s: Seq<char>) -> bool {
    s.len() > 0 && forall|i: int| 0 <= i < s.len() ==> is_name_char(#[trigger] s[i])
}

/// Checks a segment for validity.
pub fn check_segment(s: &str) -> (r: bool)
    ensures
        r == valid_segment(s@),
{
    let n = s.unicode_len();
    if n == 0 {
        return false;
    }
    let mut i: usize = 0;
    while i < n
        invariant
            n == s@.len(),
            i <= n,
            forall|j: int| 0 <= j < i ==> is_name_char(#[trigger] s@[j]),
        decreases n - i,
    {
        let c = s.get_char(i);
        let u = c as u32;
        let ok = (97u32 <= u && u <= 122u32) || (48u32 <= u && u <= 57u32) || c == '-';
        if !ok {
            return false;
        }
        i += 1;
    }
    true
}

/// An error raised when a string is not a valid package name.
#[derive(Clone, Copy, PartialEq, Eq, Structural, Debug)]
pub enum NameError {
    /// The separator was missing or one of the two segments was invalid.
    InvalidFormat,
}

/// A package name: a scope segment and a name segment.
#[derive(Clone, Debug)]
pub struct PackageName {
    /// The scope: the ownership unit the package is published under.
    pub scope: String,
    /// The package's own name within the scope.
    pub name: String,
}

impl PackageName {
    /// Both segments are valid name segments.
    pub open spec fn wf(&self) -> bool {
        valid_segment(self.scope@) && valid_segment(self.name@)
    }

    /// The canonical `scope/name` rendering.
    pub open spec fn spec_render(&self) -> Seq<char> {
        self.scope@ + seq!['/'] + self.name@
    }

    /// The escaped `scope+name` rendering, safe for file names.
    pub open spec fn spec_escaped(&self) -> Seq<char> {
        self.scope@ + seq!['+'] + self.name@
    }

    /// Splits `s` at the separator `sep` and validates both segments.
    /// Returns the name exactly when `s` is `scope`, `sep`, `name` with two
    /// valid segments; since segments never contain `sep`, such a split is
    /// unique when it exists.
    fn parse_with_sep(s: &str, sep: char) -> (r: Result<PackageName, NameError>)
        requires
            !is_name_char(sep),
        ensures
            r matches Ok(p) ==> p.wf() && s@ == p.scope@ + seq![sep] + p.name@,
            r is Err ==> forall|sc: Seq<char>, nm: Seq<char>|
                !(valid_segment(sc) && valid_segment(nm) && s@ == sc + seq![sep] + nm),
    {
        let n = s.unicode_len();
        let mut i: usize = 0;
        let mut sep_at: Option<usize> = None;
        while i < n
            invariant
                n == s@.len(),
                i <= n,
                sep_at matches Some(k) ==> k < i && s@[k as int] == sep,
                sep_at is None ==> forall|j: int| 0 <= j < i ==> s@[j] != sep,
            decreases n - i,
        {
            if s.get_char(i) == sep {
                if sep_at.is_none() {
                    sep_at = Some(i);
                }
            }
            i += 1;
        }
        match sep_at {
            None => {
                proof {
                    assert forall|sc: Seq<char>, nm: Seq<char>|
                        !(valid_segment(sc) && valid_segment(nm) && s@ == sc + seq![sep] + nm) by {
                        if valid_segment(sc) && valid_segment(nm) && s@ == sc + seq![sep] + nm {
                            assert(s@[sc.len() as int] == sep);
                        }
                    }
                }
                Err(NameError::InvalidFormat)
            },
            Some(k) => {
                let scope = s.substring_char(0, k);
                let name = s.substring_char(k + 1, n);
                if check_segment(scope) && check_segment(name) {
                    proof {
                        assert(s@ =~= scope@ + seq![sep] + name@);
                    }
                    Ok(PackageName { scope: String::from_str(scope), name: String::from_str(name) })
                } else {
                    proof {
                        assert forall|sc: Seq<char>, nm: Seq<char>|
                            !(valid_segment(sc) && valid_segment(nm) && s@ == sc + seq![sep] + nm) by {
                            if valid_segment(sc) && valid_segment(nm) && s@ == sc + seq![sep] + nm {
                                // A valid segment never contains the separator, so the
                                // split position is forced to the first occurrence.
                                assert(s@[sc.len() as int] == sep);
                                assert(forall|j: int| 0 <= j < sc.len() ==> s@[j] == sc[j]);
                                if sc.len() < k as int {
                                    assert(s@[sc.len() as int] == sep);
                                    assert(false);
                                } else if sc.len() > k as int {
                                    assert(sc[k as int] == s@[k as int]);
                                    assert(is_name_char(sc[k as int]));
                                    assert(false);
                                }
                                assert(sc.len() == k as int);
                                assert(sc =~= scope@);
                                assert(nm =~= name@);
                            }
                        }
                    }
                    Err(NameError::InvalidFormat)
                }
            },
        }
    }

    /// Parses the canonical `scope/name` form.
    pub fn from_str(s: &str) -> (r: Result<PackageName, NameError>)
        ensures
            r matches Ok(p) ==> p.wf() && s@ == p.spec_render(),
            r is Err ==> forall|sc: Seq<char>, nm: Seq<char>|
                !(valid_segment(sc) && valid_segment(nm) && s@ == sc + seq!['/'] + nm),
    {
        Self::parse_with_sep(s, '/')
    }

    /// Parses the escaped `scope+name` form.
    pub fn from_escaped(s: &str) -> (r: Result<PackageName, NameError>)
        ensures
            r matches Ok(p) ==> p.wf() && s@ == p.spec_escaped(),
            r is Err ==> forall|sc: Seq<char>, nm: Seq<char>|
                !(valid_segment(sc) && valid_segment(nm) && s@ == sc + seq!['+'] + nm),
    {
        Self::parse_with_sep(s, '+')
    }

    /// Renders the canonical `scope/name` form.
    pub fn render(&self) -> (r: String)
        ensures
            r@ == self.spec_render(),
    {
        let mut out = self.scope.clone();
        out.append("/");
        out.append(self.name.as_str());
        proof {
            reveal_strlit("/");
            assert(out@ =~= self.spec_render());
        }
        out
    }

    /// Renders the escaped `scope+name` form.
    pub fn escaped(&self) -> (r: String)
        ensures
            r@ == self.spec_escaped(),
    {
        let mut out = self.scope.clone();
        out.append("+");
        out.append(self.name.as_str());
        proof {
            reveal_strlit("+");
            assert(out@ =~= self.spec_escaped());
        }
        out
    }

    /// The two segments, scope first.
    pub fn as_str(&self) -> (r: (&str, &str))
        ensures
            r.0@ == self.scope@,
            r.1@ == self.name@,
    {
        (self.scope.as_str(), self.name.as_str())
    }
}

impl PartialEq for PackageName {
    fn eq(&self, other: &PackageName) -> (r: bool) {
        self.scope == other.scope && self.name == other.name
    }
}

impl vstd::std_specs::cmp::PartialEqSpecImpl for PackageName {
    open spec fn obeys_eq_spec() -> bool {
        true
    }

    open spec fn eq_spec(&self, other: &PackageName) -> bool {
        self.scope@ == other.scope@ && self.name@ == other.name@
    }
}

/// The sum of package-name kinds over all supported source kinds.
#[derive(Clone, Debug)]
pub enum PackageNames {
    /// A name from the first-party index.
    Pesde(PackageName),
}

impl PackageNames {
    /// The underlying name is well-formed.
    pub open spec fn wf(&self) -> bool {
        match self {
            PackageNames::Pesde(p) => p.wf(),
        }
    }

    /// The canonical rendering of the underlying name.
    pub open spec fn spec_render(&self) -> Seq<char> {
        match self {
            PackageNames::Pesde(p) => p.spec_render(),
        }
    }

    /// The escaped rendering of the underlying name.
    pub open spec fn spec_escaped(&self) -> Seq<char> {
        match self {
            PackageNames::Pesde(p) => p.spec_escaped(),
        }
    }

    /// Parses the canonical `scope/name` form.
    pub fn from_str(s: &str) -> (r: Result<PackageNames, NameError>)
        ensures
            r matches Ok(p) ==> p.wf() && s@ == p.spec_render(),
    {
        match PackageName::from_str(s) {
            Ok(p) => Ok(PackageNames::Pesde(p)),
            Err(e) => Err(e),
        }
    }

    /// Parses the escaped `scope+name` form.
    pub fn from_escaped(s: &str) -> (r: Result<PackageNames, NameError>)
        ensures
            r matches Ok(p) ==> p.wf() && s@ == p.spec_escaped(),
    {
        match PackageName::from_escaped(s) {
            Ok(p) => Ok(PackageNames::Pesde(p)),
            Err(e) => Err(e),
        }
    }

    /// Renders the canonical `scope/name` form.
    pub fn render(&self) -> (r: String)
        ensures
            r@ == self.spec_render(),
    {
        match self {
            PackageNames::Pesde(p) => p.render(),
        }
    }

    /// Renders the escaped `scope+name` form.
    pub fn escaped(&self) -> (r: String)
        ensures
            r@ == self.spec_escaped(),
    {
        match self {
            PackageNames::Pesde(p) => p.escaped(),
        }
    }

    /// The scope and name segments of the underlying name.
    pub fn as_str(&self) -> (r: (&str, &str))
        ensures
            match self {
                PackageNames::Pesde(p) => r.0@ == p.scope@ && r.1@ == p.name@,
            },
    {
        match self {
            PackageNames::Pesde(p) => p.as_str(),
        }
    }
}

impl PartialEq for PackageNames {
    fn eq(&self, other: &PackageNames) -> (r: bool) {
        match (self, other) {
            (PackageNames::Pesde(a), PackageNames::Pesde(b)) => a == b,
        }
    }
}

impl vstd::std_specs::cmp::PartialEqSpecImpl for PackageNames {
    open spec fn obeys_eq_spec() -> bool {
        true
    }

    open spec fn eq_spec(&self, other: &PackageNames) -> bool {
        match (self, other) {
            (PackageNames::Pesde(a), PackageNames::Pesde(b)) =>
                a.scope@ == b.scope@ && a.name@ == b.name@,
        }
    }
}

} // verus!

verus! {

/// The view of a package name: its two segments.
pub type NameView = (Seq<char>, Seq<char>);

impl PackageName {
    /// The name's view.
    pub open spec fn view_v(&self) -> NameView {
        (self.scope@, self.name@)
    }
}

impl PackageNames {
    /// The underlying name's view.
    pub open spec fn view_v(&self) -> NameView {
        match self {
            PackageNames::Pesde(p) => p.view_v(),
        }
    }

    /// Copies a name; the copy has the same view.
    pub fn clone_name(&self) -> (r: PackageNames)
        ensures
            r.view_v() == self.view_v(),
            r.wf() == self.wf(),
            r.spec_render() == self.spec_render(),
            r.spec_escaped() == self.spec_escaped(),
    {
        match self {
            PackageNames::Pesde(p) => PackageNames::Pesde(PackageName {
                scope: p.scope.clone(),
                name: p.name.clone(),
            }),
        }
    }
}

} // verus!
