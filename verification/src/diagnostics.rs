use vstd::prelude::*;

verus! {

/// Severity of one extracted diagnostic.
#[derive(Clone, Copy, Debug, PartialEq, Eq, Structural)]
pub enum Severity {
    Error,
    Warning,
    Other,
}

/// One structured record extracted from build output. `content` always holds
/// the full slice of raw output belonging to this diagnostic; the other
/// fields are present only when the corresponding capture group was declared
/// and matched (and, for `line` and `col`, parsed as an unsigned integer).
#[derive(Clone, Debug, PartialEq, Eq)]
pub struct Diagnostic {
    pub severity: Option<Severity>,
    pub line: Option<u32>,
    pub col: Option<u32>,
    pub file: Option<Vec<u8>>,
    pub content: Vec<u8>,
}

/// The mathematical value of a `Diagnostic`: the same fields over sequences.
pub ghost struct DiagnosticModel {
    pub severity: Option<Severity>,
    pub line: Option<u32>,
    pub col: Option<u32>,
    pub file: Option<Seq<u8>>,
    pub content: Seq<u8>,
}

impl View for Diagnostic {
    type V = DiagnosticModel;

    open spec fn view(&self) -> DiagnosticModel {
        DiagnosticModel {
            severity: self.severity,
            line: self.line,
            col: self.col,
            file: match self.file {
                Some(f) => Some(f@),
                None => None,
            },
            content: self.content@,
        }
    }
}

/// A user-configured mapping from captured severity text to a `Severity`.
/// Lookup is case-sensitive and returns the first entry whose key equals the
/// captured bytes.
#[derive(Clone, Debug, PartialEq, Eq)]
pub struct SeverityMapper {
    pub entries: Vec<(Vec<u8>, Severity)>,
}

impl View for SeverityMapper {
    type V = Seq<(Seq<u8>, Severity)>;

    open spec fn view(&self) -> Seq<(Seq<u8>, Severity)> {
        self.entries@.map_values(|e: (Vec<u8>, Severity)| (e.0@, e.1))
    }
}

/// First entry of `entries` whose key equals `key`, if any.
pub open spec fn mapper_lookup(entries: Seq<(Seq<u8>, Severity)>, key: Seq<u8>) -> Option<Severity>
    decreases entries.len(),
{
    if entries.len() == 0 {
        None
    } else if entries[0].0 == key {
        Some(entries[0].1)
    } else {
        mapper_lookup(entries.skip(1), key)
    }
}

/// Byte-wise equality of two byte slices.
pub fn bytes_eq(a: &[u8], b: &[u8]) -> (r: bool)
    ensures
        r == (a@ == b@),
{
    if a.len() != b.len() {
        return false;
    }
    let n = a.len();
    let mut i: usize = 0;
    while i < n
        invariant
            i <= n,
            n == a@.len(),
            n == b@.len(),
            forall|j: int| 0 <= j < i ==> a@[j] == b@[j],
        decreases n - i,
    {
        if a[i] != b[i] {
            return false;
        }
        i = i + 1;
    }
    proof {
        assert(a@ =~= b@);
    }
    true
}

impl SeverityMapper {
    /// Case-sensitive lookup of the captured bytes among the entries.
    pub fn lookup(&self, key: &[u8]) -> (r: Option<Severity>)
        ensures
            r == mapper_lookup(self@, key@),
    {
        let n = self.entries.len();
        let mut i: usize = 0;
        proof {
            assert(self@.skip(0) =~= self@);
        }
        while i < n
            invariant
                i <= n,
                n == self.entries.len(),
                mapper_lookup(self@, key@) == mapper_lookup(self@.skip(i as int), key@),
            decreases n - i,
        {
            proof {
                assert(self@.skip(i as int)[0] == self@[i as int]);
            }
            if bytes_eq(self.entries[i].0.as_slice(), key) {
                return Some(self.entries[i].1);
            }
            proof {
                assert(self@.skip(i as int).skip(1) =~= self@.skip(i as int + 1));
            }
            i = i + 1;
        }
        None
    }
}

/// ASCII lower-casing of a single byte.
pub open spec fn lower_ascii(b: u8) -> u8 {
    if 0x41 <= b && b <= 0x5a {
        (b + 0x20) as u8
    } else {
        b
    }
}

/// Equality of two byte sequences up to ASCII case.
pub open spec fn ascii_eq_ignore_case(a: Seq<u8>, b: Seq<u8>) -> bool {
    a.len() == b.len() && forall|i: int| 0 <= i < a.len() ==> lower_ascii(a[i]) == lower_ascii(b[i])
}

/// The bytes of the word "error".
pub open spec fn error_word() -> Seq<u8> {
    seq![101u8, 114u8, 114u8, 111u8, 114u8]
}

/// The bytes of the word "warning".
pub open spec fn warning_word() -> Seq<u8> {
    seq![119u8, 97u8, 114u8, 110u8, 105u8, 110u8, 103u8]
}

/// Severity of a captured token when no mapper is configured: the token is
/// compared case-insensitively against the literal words "error" and
/// "warning"; anything else leaves the severity absent.
pub open spec fn spec_fallback_severity(cap: Seq<u8>) -> Option<Severity> {
    if ascii_eq_ignore_case(cap, error_word()) {
        Some(Severity::Error)
    } else if ascii_eq_ignore_case(cap, warning_word()) {
        Some(Severity::Warning)
    } else {
        None
    }
}

/// Severity of a captured token: a case-sensitive lookup when a mapper is
/// configured (an unmapped token yields an absent severity), the literal
/// fallback otherwise.
pub open spec fn spec_resolve_severity(mapper: Option<Seq<(Seq<u8>, Severity)>>, cap: Seq<u8>) -> Option<
    Severity,
> {
    match mapper {
        Some(m) => mapper_lookup(m, cap),
        None => spec_fallback_severity(cap),
    }
}

/// The contents of an optional, borrowed mapper.
pub open spec fn mapper_view(m: Option<&SeverityMapper>) -> Option<Seq<(Seq<u8>, Severity)>> {
    match m {
        Some(sm) => Some(sm@),
        None => None,
    }
}

/// The contents of an optional, owned mapper.
pub open spec fn opt_mapper_view(m: Option<SeverityMapper>) -> Option<Seq<(Seq<u8>, Severity)>> {
    match m {
        Some(sm) => Some(sm@),
        None => None,
    }
}

fn lower_byte(b: u8) -> (r: u8)
    ensures
        r == lower_ascii(b),
{
    if 0x41 <= b && b <= 0x5a {
        b + 0x20
    } else {
        b
    }
}

fn eq_ignore_ascii_case_bytes(a: &[u8], b: &[u8]) -> (r: bool)
    ensures
        r == ascii_eq_ignore_case(a@, b@),
{
    if a.len() != b.len() {
        return false;
    }
    let n = a.len();
    let mut i: usize = 0;
    while i < n
        invariant
            i <= n,
            n == a@.len(),
            n == b@.len(),
            forall|j: int| 0 <= j < i ==> lower_ascii(a@[j]) == lower_ascii(b@[j]),
        decreases n - i,
    {
        if lower_byte(a[i]) != lower_byte(b[i]) {
            return false;
        }
        i = i + 1;
    }
    true
}

fn word_error() -> (v: Vec<u8>)
    ensures
        v@ == error_word(),
{
    let mut v: Vec<u8> = Vec::new();
    v.push(101);
    v.push(114);
    v.push(114);
    v.push(111);
    v.push(114);
    proof {
        assert(v@ =~= error_word());
    }
    v
}

fn word_warning() -> (v: Vec<u8>)
    ensures
        v@ == warning_word(),
{
    let mut v: Vec<u8> = Vec::new();
    v.push(119);
    v.push(97);
    v.push(114);
    v.push(110);
    v.push(105);
    v.push(110);
    v.push(103);
    proof {
        assert(v@ =~= warning_word());
    }
    v
}

/// Resolves the severity of a captured token, per the configured mapper or
/// the literal fallback.
pub fn resolve_severity(mapper: Option<&SeverityMapper>, cap: &[u8]) -> (r: Option<Severity>)
    ensures
        r == spec_resolve_severity(mapper_view(mapper), cap@),
{
    match mapper {
        Some(m) => m.lookup(cap),
        None => {
            let ew = word_error();
            if eq_ignore_ascii_case_bytes(cap, ew.as_slice()) {
                Some(Severity::Error)
            } else {
                let ww = word_warning();
                if eq_ignore_ascii_case_bytes(cap, ww.as_slice()) {
                    Some(Severity::Warning)
                } else {
                    None
                }
            }
        },
    }
}

/// The default severity mapper: the exact words "error" and "warning".
pub fn default_severity_mapper() -> (m: SeverityMapper)
    ensures
        m@.len() == 2,
        m@[0] == (error_word(), Severity::Error),
        m@[1] == (warning_word(), Severity::Warning),
{
    let mut entries: Vec<(Vec<u8>, Severity)> = Vec::new();
    entries.push((word_error(), Severity::Error));
    entries.push((word_warning(), Severity::Warning));
    SeverityMapper { entries }
}

/// Whether `b` is an ASCII decimal digit.
pub open spec fn is_ascii_digit(b: u8) -> bool {
    0x30 <= b && b <= 0x39
}

/// The value of a sequence of ASCII digits read in base 10.
pub open spec fn digits_value(s: Seq<u8>) -> int
    decreases s.len(),
{
    if s.len() == 0 {
        0
    } else {
        digits_value(s.drop_last()) * 10 + (s.last() - 0x30)
    }
}

/// Whether `s` is a non-empty run of ASCII digits.
pub open spec fn all_digits(s: Seq<u8>) -> bool {
    s.len() > 0 && forall|i: int| 0 <= i < s.len() ==> is_ascii_digit(s[i])
}

/// The unsigned integer denoted by `s`, exactly as `u32::from_str` reads it:
/// an optional leading `+`, then at least one digit, and a value that fits.
pub open spec fn spec_parse_u32(s: Seq<u8>) -> Option<u32> {
    let d = if s.len() > 0 && s[0] == 0x2b {
        s.skip(1)
    } else {
        s
    };
    if all_digits(d) && digits_value(d) <= u32::MAX {
        Some(digits_value(d) as u32)
    } else {
        None
    }
}

proof fn lemma_digits_nonneg(s: Seq<u8>)
    requires
        forall|i: int| 0 <= i < s.len() ==> is_ascii_digit(s[i]),
    ensures
        digits_value(s) >= 0,
    decreases s.len(),
{
    if s.len() > 0 {
        lemma_digits_nonneg(s.drop_last());
    }
}

proof fn lemma_digits_prefix_le(s: Seq<u8>, k: int)
    requires
        0 <= k <= s.len(),
        forall|i: int| 0 <= i < s.len() ==> is_ascii_digit(s[i]),
    ensures
        digits_value(s.subrange(0, k)) <= digits_value(s),
    decreases s.len() - k,
{
    if k == s.len() {
        assert(s.subrange(0, k) =~= s);
    } else {
        let p = s.subrange(0, k);
        let q = s.subrange(0, k + 1);
        assert(q.drop_last() =~= p);
        lemma_digits_nonneg(p);
        lemma_digits_prefix_le(s, k + 1);
    }
}

/// Parses the bytes as an unsigned 32-bit integer, as `u32::from_str` would.
pub fn parse_u32_bytes(s: &[u8]) -> (r: Option<u32>)
    ensures
        r == spec_parse_u32(s@),
{
    let d_start: usize = if s.len() > 0 && s[0] == 0x2b {
        1
    } else {
        0
    };
    let ghost d: Seq<u8> = if d_start == 1 {
        s@.skip(1)
    } else {
        s@
    };
    proof {
        assert(d =~= s@.skip(d_start as int));
    }
    let n = s.len();
    if n == d_start {
        return None;
    }
    let mut acc: u32 = 0;
    let mut i: usize = d_start;
    while i < n
        invariant
            d_start <= i <= n,
            n == s@.len(),
            d_start == 0 || d_start == 1,
            d_start == 1 ==> s@.len() > 0 && s@[0] == 0x2b,
            d_start == 0 ==> !(s@.len() > 0 && s@[0] == 0x2b),
            d == s@.skip(d_start as int),
            d_start == 1 ==> d == s@.skip(1),
            d_start == 0 ==> d == s@,
            forall|j: int| 0 <= j < i - d_start ==> is_ascii_digit(d[j]),
            acc == digits_value(d.subrange(0, i - d_start)),
        decreases n - i,
    {
        let b = s[i];
        proof {
            assert(d[i - d_start] == s@[i as int]);
        }
        if !(0x30 <= b && b <= 0x39) {
            return None;
        }
        let dv: u32 = (b - 0x30) as u32;
        let ghost pre = d.subrange(0, i - d_start);
        let ghost cur = d.subrange(0, i + 1 - d_start);
        proof {
            assert(cur.drop_last() =~= pre);
            assert(cur.last() == d[i - d_start]);
        }
        let step = match acc.checked_mul(10) {
            Some(x) => x.checked_add(dv),
            None => None,
        };
        match step {
            Some(y) => {
                acc = y;
            },
            None => {
                proof {
                    assert(digits_value(cur) > u32::MAX);
                    if all_digits(d) {
                        lemma_digits_prefix_le(d, i + 1 - d_start);
                    }
                }
                return None;
            },
        }
        i = i + 1;
    }
    proof {
        assert(d.subrange(0, n - d_start) =~= d);
    }
    Some(acc)
}

} // verus!
