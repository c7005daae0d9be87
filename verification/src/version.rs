use vstd::prelude::*;

verus! {

/// One dot-separated identifier of a pre-release segment, either numeric
/// (`3` in `1.0.0-alpha.3`) or alphanumeric (`alpha`).
#[derive(Debug, Clone, PartialEq, Eq)]
pub enum VersionIdentifier {
    Numeric(u32),
    AlphaNumeric(String),
}

/// The mathematical value of a [`VersionIdentifier`].
pub enum VersionIdentifierView {
    Numeric(u32),
    AlphaNumeric(Seq<char>),
}

impl View for VersionIdentifier {
    type V = VersionIdentifierView;

    open spec fn view(&self) -> VersionIdentifierView {
        match self {
            VersionIdentifier::Numeric(n) => VersionIdentifierView::Numeric(*n),
            VersionIdentifier::AlphaNumeric(s) => VersionIdentifierView::AlphaNumeric(s@),
        }
    }
}

/// A semantic version: `major.minor.patch`, an optional pre-release part
/// (`-alpha.3`) and an optional build part (`+20130417`).
#[derive(Debug, Clone, PartialEq, Eq)]
pub struct Version {
    pub major: u32,
    pub minor: u32,
    pub patch: u32,
    pub pre: Vec<VersionIdentifier>,
    pub build: Option<String>,
}

/// The mathematical value of a [`Version`].
pub struct VersionView {
    pub major: u32,
    pub minor: u32,
    pub patch: u32,
    pub pre: Seq<VersionIdentifierView>,
    pub build: Option<Seq<char>>,
}

impl View for Version {
    type V = VersionView;

    open spec fn view(&self) -> VersionView {
        VersionView {
            major: self.major,
            minor: self.minor,
            patch: self.patch,
            pre: Seq::new(self.pre@.len(), |i: int| self.pre@[i]@),
            build: match &self.build {
                Some(s) => Some(s@),
                None => None,
            },
        }
    }
}

/// The version a manifest gets when it does not name one: `0.1.0`.
pub open spec fn spec_default_version() -> VersionView {
    VersionView {
        major: 0,
        minor: 1,
        patch: 0,
        pre: Seq::empty(),
        build: None,
    }
}

/// The version a manifest gets when it does not name one: `0.1.0`.
pub fn default_version() -> (v: Version)
    ensures
        v@ == spec_default_version(),
{
    let v = Version { major: 0, minor: 1, patch: 0, pre: Vec::new(), build: None };
    proof {
        assert(v@.pre =~= spec_default_version().pre);
    }
    v
}

/// What `hexpm::version::Version::parse` makes of a string: the parsed
/// version, or nothing where the string is not a semantic version.
pub uninterp spec fn version_of(s: Seq<char>) -> Option<VersionView>;

/// Relies on `hexpm::version::Version::parse`: whether a string is a valid
/// semantic version, and the parsed parts, depend on the string alone.
#[verifier::external_body]
pub(crate) fn parse_version_str(s: &str) -> (r: Option<Version>)
    ensures
        match r {
            Some(v) => version_of(s@) == Some(v@),
            None => version_of(s@) is None,
        },
{
    match hexpm::version::Version::parse(s) {
        Ok(v) => Some(Version {
            major: v.major,
            minor: v.minor,
            patch: v.patch,
            pre: v.pre.into_iter().map(|i| match i {
                hexpm::version::Identifier::Numeric(n) => VersionIdentifier::Numeric(n),
                hexpm::version::Identifier::AlphaNumeric(a) => VersionIdentifier::AlphaNumeric(a),
            }).collect(),
            build: v.build,
        }),
        Err(_) => None,
    }
}

/// Whether `hexpm::version::Range::new` accepts a string as a version
/// requirement (such as `~> 1.0` or `> 1 and < 2`).
pub uninterp spec fn range_ok(s: Seq<char>) -> bool;

/// Whether a character is an ASCII digit.
pub open spec fn is_ascii_digit(c: char) -> bool {
    48 <= c as u32 && c as u32 <= 57
}

/// Ten digit characters in a row, starting at `i`.
pub open spec fn ten_digit_run_at(s: Seq<char>, i: int) -> bool {
    forall|k: int| i <= k < i + 10 ==> is_ascii_digit(s[k])
}

/// No run of ten or more digit characters anywhere in `s`: every numeric
/// component of the requirement then values below one billion, so
/// incrementing one as a `u32` cannot overflow.
pub open spec fn components_bounded(s: Seq<char>) -> bool {
    forall|i: int| 0 <= i && i + 10 <= s.len() ==> !ten_digit_run_at(s, i)
}

/// A requirement string the library accepts: its numeric components are
/// bounded, and hexpm accepts it as a range.
pub open spec fn requirement_ok(s: Seq<char>) -> bool {
    components_bounded(s) && range_ok(s)
}

/// Scan a requirement string for a run of ten or more digit characters.
fn components_bounded_exec(s: &str) -> (r: bool)
    ensures
        r == components_bounded(s@),
{
    let n = s.unicode_len();
    let mut i: usize = 0;
    let mut run: usize = 0;
    while i < n
        invariant
            n == s@.len(),
            0 <= i <= n,
            run <= i,
            run < 10,
            forall|k: int| i - run <= k < i ==> is_ascii_digit(s@[k]),
            run == i || !is_ascii_digit(s@[i - run - 1]),
            forall|p: int| 0 <= p && p + 10 <= i ==> !ten_digit_run_at(s@, p),
        decreases n - i,
    {
        let c = s.get_char(i);
        let cu = c as u32;
        if 48 <= cu && cu <= 57 {
            if run == 9 {
                proof {
                    assert forall|k: int| i - 9 <= k < i - 9 + 10 implies is_ascii_digit(
                        s@[k],
                    ) by {
                        if k < i {
                        } else {
                            assert(s@[i as int] == c);
                        }
                    }
                    assert(ten_digit_run_at(s@, i - 9));
                }
                return false;
            }
            run = run + 1;
        } else {
            run = 0;
        }
        proof {
            assert forall|p: int| 0 <= p && p + 10 <= i + 1 implies !ten_digit_run_at(
                s@,
                p,
            ) by {
                if p + 10 <= i {
                } else {
                    if ten_digit_run_at(s@, p) {
                        if 48 <= c as u32 && c as u32 <= 57 {
                            assert(is_ascii_digit(s@[i - run as int]));
                            assert(false);
                        } else {
                            assert(is_ascii_digit(s@[i as int]));
                            assert(false);
                        }
                    }
                }
            }
        }
        i += 1;
    }
    true
}

/// Relies on `hexpm::version::Range::new`: whether a string is a valid Hex
/// version requirement depends on the string alone. The `requires` keeps
/// panics away from the call: hexpm's range parser increments version
/// components (`bump_major` and friends, for `~>`, `>`, `<=` and `!=`
/// requirements) as unchecked `u32 + 1`, which overflows on a component of
/// exactly `u32::MAX`; with every digit run shorter than ten characters no
/// component reaches one billion, and the increment cannot overflow.
#[verifier::external_body]
pub(crate) fn range_spec_valid(s: &str) -> (r: bool)
    requires
        components_bounded(s@),
    ensures
        r == range_ok(s@),
{
    hexpm::version::Range::new(s.to_string()).is_ok()
}

/// A requirement on dependency versions, kept as its validated source text.
/// `hexpm::version::Range` keeps this text unchanged (`Range::as_str`), so
/// the text is the whole value.
#[derive(Debug, Clone, PartialEq, Eq)]
pub struct VersionRange {
    source: String,
}

impl View for VersionRange {
    type V = Seq<char>;

    closed spec fn view(&self) -> Seq<char> {
        self.source@
    }
}

impl VersionRange {
    /// A range is well formed when its source text is an accepted
    /// requirement with bounded numeric components.
    pub open spec fn wf(&self) -> bool {
        requirement_ok(self@)
    }

    /// Validate a requirement string and keep it; nothing where the string
    /// is not a valid requirement. A requirement with a numeric component of
    /// ten or more digits is rejected outright rather than handed to hexpm:
    /// such a component either overflows hexpm's `u32` versions or sits at
    /// their very edge, where incrementing it panics. This parts from hexpm
    /// only on components of one billion and above.
    pub fn new(source: &str) -> (r: Option<VersionRange>)
        ensures
            r is Some <==> requirement_ok(source@),
            r matches Some(v) ==> v@ == source@ && v.wf(),
    {
        if !components_bounded_exec(source) {
            return None;
        }
        if range_spec_valid(source) {
            Some(VersionRange { source: source.to_owned() })
        } else {
            None
        }
    }

    /// A copy with the same source text.
    pub fn duplicate(&self) -> (r: VersionRange)
        ensures
            r@ == self@,
    {
        VersionRange { source: self.source.clone() }
    }

    /// The source text of the requirement.
    pub fn as_str(&self) -> (r: &str)
        ensures
            r@ == self@,
    {
        self.source.as_str()
    }
}

} // verus!
