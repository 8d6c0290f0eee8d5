use vstd::prelude::*;
use vstd::slice::{slice_subrange, slice_to_vec};
use vstd::utf8::valid_utf8;

use crate::diagnostics::{
    opt_mapper_view, mapper_view, parse_u32_bytes, resolve_severity, spec_parse_u32,
    spec_resolve_severity, Diagnostic, DiagnosticModel, Severity, SeverityMapper,
};

verus! {

/// How diagnostics are sliced out of raw build output: a regular-expression
/// source string, the capture groups that hold each field of a diagnostic,
/// and an optional mapping from captured severity text to a severity.
#[derive(Clone, Debug)]
pub struct PatternMatcherSpec {
    pub pattern: String,
    pub file_group: Option<u16>,
    pub line_group: Option<u16>,
    pub col_group: Option<u16>,
    pub severity_group: Option<u16>,
    pub severity_mapper: Option<SeverityMapper>,
}

/// Why extraction can fail as a whole.
#[derive(Clone, Copy, Debug, PartialEq, Eq, Structural)]
pub enum ExtractError {
    /// The configured pattern is not a valid regular expression.
    PatternCompileError,
    /// The raw output is not valid UTF-8 text.
    DecodeError,
}

/// The byte spans that the configured regular expression yields on the given
/// text, or nothing when the pattern does not compile: one record per
/// non-overlapping match, in order, holding the span of each capture group
/// (group 0 is the whole match; a group that did not participate is absent).
pub uninterp spec fn match_spans(pattern: Seq<char>, text: Seq<u8>) -> Option<
    Seq<Seq<Option<(usize, usize)>>>,
>;

/// The span of the whole match `i`: its capture group 0.
pub open spec fn whole_span(ms: Seq<Seq<Option<(usize, usize)>>>, i: int) -> (usize, usize) {
    ms[i][0]->Some_0
}

/// What the regular-expression engine guarantees of the spans it yields on a
/// text of `n` bytes: every match record holds a present group 0, every
/// present span lies within the text with its start before its end, and the
/// matches come in strictly increasing order of start offset.
pub open spec fn spans_wf(ms: Seq<Seq<Option<(usize, usize)>>>, n: int) -> bool {
    &&& forall|i: int| 0 <= i < ms.len() ==> (#[trigger] ms[i]).len() >= 1 && ms[i][0] is Some
    &&& forall|i: int, j: int|
        0 <= i < ms.len() && 0 <= j < ms[i].len() && (#[trigger] ms[i][j]) is Some ==> {
            let se = ms[i][j]->Some_0;
            se.0 <= se.1 <= n
        }
    &&& forall|i: int|
        0 <= i < ms.len() - 1 ==> (#[trigger] whole_span(ms, i)).0 < whole_span(ms, i + 1).0
}

/// Relies on `core::str::from_utf8`: it returns `Ok` exactly when the bytes
/// are a valid UTF-8 encoding, the property that vstd's `valid_utf8` models.
#[verifier::external_body]
fn utf8_valid(bytes: &[u8]) -> (r: bool)
    ensures
        r == valid_utf8(bytes@),
{
    core::str::from_utf8(bytes).is_ok()
}

/// Relies on `regex::bytes::Regex::new`, which fails exactly when the pattern
/// is invalid (or would exceed the default compiled-size limit), and on
/// `Regex::captures_iter`, which yields successive non-overlapping matches in
/// order of strictly increasing start offset. For each match,
/// `Captures::get` gives the byte span of each capture group (absent when
/// the group did not participate), group 0 — the whole match — is always
/// present, and every span satisfies `start <= end <= text.len()`.
#[verifier::external_body]
fn find_captures(pattern: &String, text: &[u8]) -> (r: Option<Vec<Vec<Option<(usize, usize)>>>>)
    ensures
        r is Some <==> match_spans(pattern@, text@) is Some,
        r matches Some(caps) ==> {
            let ms = match_spans(pattern@, text@)->Some_0;
            &&& caps@.len() == ms.len()
            &&& forall|i: int| 0 <= i < ms.len() ==> (#[trigger] caps@[i])@ == ms[i]
            &&& spans_wf(ms, text@.len() as int)
        },
{
    let re = match regex::bytes::Regex::new(pattern) {
        Ok(re) => re,
        Err(_) => return None,
    };
    let mut out: Vec<Vec<Option<(usize, usize)>>> = Vec::new();
    for caps in re.captures_iter(text) {
        let mut groups: Vec<Option<(usize, usize)>> = Vec::new();
        for k in 0..caps.len() {
            groups.push(caps.get(k).map(|m| (m.start(), m.end())));
        }
        out.push(groups);
    }
    Some(out)
}

/// The span of capture group `g` in one match record: absent when no group
/// index is configured, when the index lies beyond the pattern's groups, or
/// when the group did not participate in the match.
pub open spec fn spec_group_span(m: Seq<Option<(usize, usize)>>, g: Option<u16>) -> Option<
    (usize, usize),
> {
    match g {
        None => None,
        Some(gi) => if gi < m.len() {
            m[gi as int]
        } else {
            None
        },
    }
}

/// The bytes of `text` under `span`, when present.
pub open spec fn spec_sliced(text: Seq<u8>, span: Option<(usize, usize)>) -> Option<Seq<u8>> {
    match span {
        None => None,
        Some(se) => Some(text.subrange(se.0 as int, se.1 as int)),
    }
}

/// The unsigned integer under `span`: absent when the span is absent or its
/// bytes do not parse.
pub open spec fn spec_parsed_field(text: Seq<u8>, span: Option<(usize, usize)>) -> Option<u32> {
    match span {
        None => None,
        Some(se) => spec_parse_u32(text.subrange(se.0 as int, se.1 as int)),
    }
}

/// The severity under `span`, resolved by the configured mapper or the
/// literal fallback; absent when the span is absent.
pub open spec fn spec_severity_field(
    text: Seq<u8>,
    span: Option<(usize, usize)>,
    mapper: Option<Seq<(Seq<u8>, Severity)>>,
) -> Option<Severity> {
    match span {
        None => None,
        Some(se) => spec_resolve_severity(mapper, text.subrange(se.0 as int, se.1 as int)),
    }
}

/// The start offset of match `i`.
pub open spec fn spec_match_start(ms: Seq<Seq<Option<(usize, usize)>>>, i: int) -> int {
    whole_span(ms, i).0 as int
}

/// Where the content of diagnostic `i` ends: at the start of the next match,
/// or at the end of the whole output for the last one.
pub open spec fn spec_content_end(ms: Seq<Seq<Option<(usize, usize)>>>, i: int, n: int) -> int {
    if i + 1 < ms.len() {
        spec_match_start(ms, i + 1)
    } else {
        n
    }
}

/// The diagnostic that match `i` of `ms` yields from `text` under `pm`.
pub open spec fn spec_diagnostic(
    text: Seq<u8>,
    pm: PatternMatcherSpec,
    ms: Seq<Seq<Option<(usize, usize)>>>,
    i: int,
) -> DiagnosticModel {
    DiagnosticModel {
        severity: spec_severity_field(
            text,
            spec_group_span(ms[i], pm.severity_group),
            opt_mapper_view(pm.severity_mapper),
        ),
        line: spec_parsed_field(text, spec_group_span(ms[i], pm.line_group)),
        col: spec_parsed_field(text, spec_group_span(ms[i], pm.col_group)),
        file: spec_sliced(text, spec_group_span(ms[i], pm.file_group)),
        content: text.subrange(spec_match_start(ms, i), spec_content_end(ms, i, text.len() as int)),
    }
}

/// The single fallback diagnostic used when no matcher spec is configured:
/// the whole raw output as content, every other field absent.
pub open spec fn spec_dump_diagnostic(text: Seq<u8>) -> DiagnosticModel {
    DiagnosticModel { severity: None, line: None, col: None, file: None, content: text }
}

/// The contents of the match records as sequences.
pub open spec fn spans_seq(spans: Vec<Vec<Option<(usize, usize)>>>) -> Seq<
    Seq<Option<(usize, usize)>>,
> {
    spans@.map_values(|v: Vec<Option<(usize, usize)>>| v@)
}

/// The span of capture group `g` of the match record `m`.
fn group_span(m: &Vec<Option<(usize, usize)>>, g: Option<u16>) -> (r: Option<(usize, usize)>)
    ensures
        r == spec_group_span(m@, g),
{
    match g {
        None => None,
        Some(gi) => {
            let gu = gi as usize;
            if gu < m.len() {
                m[gu]
            } else {
                None
            }
        },
    }
}

/// Builds the diagnostic list from the byte spans of each match. The content
/// of diagnostic `i` runs from the start of match `i` to the start of match
/// `i + 1` (to the end of the output for the last match), and the file,
/// line, column and severity fields come from the configured capture groups.
pub fn diagnostics_from_spans(
    raw: &[u8],
    pm: &PatternMatcherSpec,
    spans: &Vec<Vec<Option<(usize, usize)>>>,
) -> (ds: Vec<Diagnostic>)
    requires
        spans_wf(spans_seq(*spans), raw@.len() as int),
    ensures
        ds@.len() == spans@.len(),
        forall|i: int|
            0 <= i < ds@.len() ==> (#[trigger] ds@[i])@ == spec_diagnostic(
                raw@,
                *pm,
                spans_seq(*spans),
                i,
            ),
{
    let ghost ms = spans_seq(*spans);
    let n = spans.len();
    let mut ds: Vec<Diagnostic> = Vec::new();
    let mut i: usize = 0;
    while i < n
        invariant
            i <= n,
            n == spans@.len(),
            ms == spans_seq(*spans),
            spans_wf(ms, raw@.len() as int),
            ds@.len() == i,
            forall|j: int| 0 <= j < i ==> (#[trigger] ds@[j])@ == spec_diagnostic(raw@, *pm, ms, j),
        decreases n - i,
    {
        let m: &Vec<Option<(usize, usize)>> = &spans[i];
        proof {
            assert(m@ == ms[i as int]);
            assert(ms[i as int][0] is Some);
        }
        let start = m[0].unwrap().0;
        let end = if i + 1 < n {
            let m2: &Vec<Option<(usize, usize)>> = &spans[i + 1];
            proof {
                assert(m2@ == ms[i as int + 1]);
                assert(ms[i as int + 1][0] is Some);
                assert(whole_span(ms, i as int).0 < whole_span(ms, i as int + 1).0);
                assert(whole_span(ms, i as int + 1).0 <= whole_span(ms, i as int + 1).1
                    <= raw@.len());
            }
            m2[0].unwrap().0
        } else {
            proof {
                assert(whole_span(ms, i as int).0 <= whole_span(ms, i as int).1 <= raw@.len());
            }
            raw.len()
        };
        let content = slice_to_vec(slice_subrange(raw, start, end));
        let file: Option<Vec<u8>> = match group_span(m, pm.file_group) {
            Some(se) => {
                proof {
                    assert(ms[i as int][pm.file_group->Some_0 as int] is Some);
                }
                Some(slice_to_vec(slice_subrange(raw, se.0, se.1)))
            },
            None => None,
        };
        let line: Option<u32> = match group_span(m, pm.line_group) {
            Some(se) => {
                proof {
                    assert(ms[i as int][pm.line_group->Some_0 as int] is Some);
                }
                parse_u32_bytes(slice_subrange(raw, se.0, se.1))
            },
            None => None,
        };
        let col: Option<u32> = match group_span(m, pm.col_group) {
            Some(se) => {
                proof {
                    assert(ms[i as int][pm.col_group->Some_0 as int] is Some);
                }
                parse_u32_bytes(slice_subrange(raw, se.0, se.1))
            },
            None => None,
        };
        let severity: Option<Severity> = match group_span(m, pm.severity_group) {
            Some(se) => {
                proof {
                    assert(ms[i as int][pm.severity_group->Some_0 as int] is Some);
                }
                let mref = pm.severity_mapper.as_ref();
                proof {
                    assert(mapper_view(mref) == opt_mapper_view(pm.severity_mapper));
                }
                resolve_severity(mref, slice_subrange(raw, se.0, se.1))
            },
            None => None,
        };
        let d = Diagnostic { severity, line, col, file, content };
        proof {
            assert(d@ == spec_diagnostic(raw@, *pm, ms, i as int));
        }
        ds.push(d);
        i = i + 1;
    }
    ds
}

/// When extraction fails as a whole: the raw output is not valid text, or a
/// configured pattern does not compile.
pub open spec fn extraction_fails(text: Seq<u8>, pm: Option<PatternMatcherSpec>) -> bool {
    !valid_utf8(text) || (pm is Some && match_spans(pm->Some_0.pattern@, text) is None)
}

/// What a successful extraction returns: with no matcher spec, exactly the
/// single fallback diagnostic; with one, one diagnostic per match of the
/// pattern, each as `spec_diagnostic` gives it.
pub open spec fn extraction_result(
    text: Seq<u8>,
    pm: Option<PatternMatcherSpec>,
    ds: Seq<Diagnostic>,
) -> bool {
    match pm {
        None => ds.len() == 1 && ds[0]@ == spec_dump_diagnostic(text),
        Some(p) => {
            let ms = match_spans(p.pattern@, text)->Some_0;
            ds.len() == ms.len() && forall|i: int|
                0 <= i < ms.len() ==> (#[trigger] ds[i])@ == spec_diagnostic(text, p, ms, i)
        },
    }
}

/// The owned value of an optional, borrowed matcher spec.
pub open spec fn opt_spec(pm: Option<&PatternMatcherSpec>) -> Option<PatternMatcherSpec> {
    match pm {
        Some(p) => Some(*p),
        None => None,
    }
}

/// Extracts the ordered diagnostic list from raw build output.
///
/// With no matcher spec, the whole output becomes the single fallback
/// diagnostic. With one, every non-overlapping match of the pattern starts a
/// diagnostic whose content runs to the start of the next match, the file,
/// line and column come from the configured capture groups, and the severity
/// is resolved through the configured mapper or the literal fallback.
/// Output that is not valid UTF-8 is rejected wholesale, and a pattern that
/// does not compile fails the extraction.
pub fn extract(raw: &[u8], pm: Option<&PatternMatcherSpec>) -> (r: Result<
    Vec<Diagnostic>,
    ExtractError,
>)
    ensures
        r is Err <==> extraction_fails(raw@, opt_spec(pm)),
        !valid_utf8(raw@) ==> r == Err::<Vec<Diagnostic>, ExtractError>(ExtractError::DecodeError),
        valid_utf8(raw@) && r is Err ==> r == Err::<Vec<Diagnostic>, ExtractError>(
            ExtractError::PatternCompileError,
        ),
        r matches Ok(ds) ==> extraction_result(raw@, opt_spec(pm), ds@),
{
    if !utf8_valid(raw) {
        return Err(ExtractError::DecodeError);
    }
    match pm {
        None => {
            let mut ds: Vec<Diagnostic> = Vec::new();
            let d = Diagnostic {
                severity: None,
                line: None,
                col: None,
                file: None,
                content: slice_to_vec(raw),
            };
            ds.push(d);
            Ok(ds)
        },
        Some(p) => {
            match find_captures(&p.pattern, raw) {
                None => Err(ExtractError::PatternCompileError),
                Some(spans) => {
                    proof {
                        assert(spans_seq(spans) =~= match_spans(p.pattern@, raw@)->Some_0);
                    }
                    let ds = diagnostics_from_spans(raw, p, &spans);
                    Ok(ds)
                },
            }
        },
    }
}

/// The zero-match law: when a configured pattern compiles but matches
/// nowhere in the text, a successful extraction returns the empty sequence —
/// not the single fallback diagnostic of the no-spec case.
pub proof fn lemma_no_matches_no_diagnostics(
    text: Seq<u8>,
    pm: PatternMatcherSpec,
    ds: Seq<Diagnostic>,
)
    requires
        extraction_result(text, Some(pm), ds),
        match_spans(pm.pattern@, text) matches Some(ms) && ms.len() == 0,
    ensures
        ds.len() == 0,
{
}

/// The content-slicing law: under well-formed spans, the content of
/// diagnostic `i` is exactly the bytes from the start offset of match `i` to
/// the start offset of match `i + 1`, and the bytes from the start offset of
/// the last match to the end of the output for the last diagnostic.
pub proof fn lemma_content_slicing(
    text: Seq<u8>,
    pm: PatternMatcherSpec,
    ms: Seq<Seq<Option<(usize, usize)>>>,
    i: int,
)
    requires
        spans_wf(ms, text.len() as int),
        0 <= i < ms.len(),
    ensures
        i + 1 < ms.len() ==> spec_diagnostic(text, pm, ms, i).content == text.subrange(
            spec_match_start(ms, i),
            spec_match_start(ms, i + 1),
        ),
        i + 1 == ms.len() ==> spec_diagnostic(text, pm, ms, i).content == text.subrange(
            spec_match_start(ms, i),
            text.len() as int,
        ),
{
}

} // verus!
