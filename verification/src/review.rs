//! Iterative review of spec and plan documents.

use vstd::prelude::*;

use crate::acp::sigils::filled_content;
use crate::text::basic::{opt_str, opt_text, texts};
use crate::text::number::{decimal, decimal_text};
use crate::text::search::{contains, has, text_between};
use crate::text::shape::{trim, trimmed};

verus! {

/// Maximum number of review rounds before stopping.
pub const MAX_REVIEW_ROUNDS: u32 = 5;

/// What kind of document is being reviewed.
#[derive(Debug, Clone, Copy, PartialEq, Eq, Structural)]
pub enum DocumentKind {
    Spec,
    Plan,
}

/// The name of a kind of document.
pub open spec fn kind_label(k: DocumentKind) -> Seq<char> {
    match k {
        DocumentKind::Spec => "spec"@,
        DocumentKind::Plan => "plan"@,
    }
}

impl DocumentKind {
    /// The name of the kind.
    pub fn label(&self) -> (r: &'static str)
        ensures
            r@ == kind_label(*self),
    {
        match self {
            DocumentKind::Spec => "spec",
            DocumentKind::Plan => "plan",
        }
    }
}

/// What a spec is assessed for.
pub const SPEC_CRITERIA: &'static str = r#"## Spec-Specific Criteria

- **Completeness**: Does the spec cover all functional and non-functional requirements?
- **Testability**: Are acceptance criteria concrete and verifiable?
- **Precision**: Are data models, APIs, and schemas defined with enough detail for implementation?
- **Edge cases**: Are error handling, boundary conditions, and failure modes addressed?
- **Dependencies**: Are external dependencies, integrations, and assumptions documented?"#;

/// What a plan is assessed for.
pub const PLAN_CRITERIA: &'static str = r#"## Plan-Specific Criteria

- **Completeness**: Does the plan cover all spec requirements?
- **Ordering**: Are implementation phases in a logical, dependency-respecting order?
- **Task granularity**: Are phases broken into right-sized, implementable chunks?
- **Verification**: Does each phase have clear verification/acceptance criteria?
- **Risk coverage**: Are risk areas, failure modes, and mitigation strategies identified?
- **Spec alignment**: Does the plan reference specific spec sections?"#;

/// Part 1 of the prompt for reviewing a document.
pub const REVIEW_PROMPT_A: &'static str = r#"You are a document review agent for Ralph. Your job is to review and improve a feature "#;

/// Part 2 of the prompt for reviewing a document.
pub const REVIEW_PROMPT_B: &'static str = r#" document.

## Feature

**Name:** "#;

/// Part 3 of the prompt for reviewing a document.
pub const REVIEW_PROMPT_C: &'static str = r#"
**Document:** `"#;

/// Part 4 of the prompt for reviewing a document.
pub const REVIEW_PROMPT_D: &'static str = r#"`
"#;

/// Part 5 of the prompt for reviewing a document.
pub const REVIEW_PROMPT_E: &'static str = r#"
"#;

/// Part 6 of the prompt for reviewing a document.
pub const REVIEW_PROMPT_F: &'static str = r#"
"#;

/// Part 7 of the prompt for reviewing a document.
pub const REVIEW_PROMPT_G: &'static str = r#"

## Your Task

1. Read the "#;

/// Part 8 of the prompt for reviewing a document.
pub const REVIEW_PROMPT_H: &'static str = r#" document at `"#;

/// Part 9 of the prompt for reviewing a document.
pub const REVIEW_PROMPT_I: &'static str = r#"`
2. Read relevant source code to understand the project's existing patterns, conventions, and architecture
3. Assess the document for completeness, robustness, and clarity
4. Make ALL recommended improvements directly to the file using Edit/Write tools
5. Emit a sigil indicating the outcome

"#;

/// Part 10 of the prompt for reviewing a document.
pub const REVIEW_PROMPT_J: &'static str = r#"

## General Quality Criteria

- **Clarity**: Is the writing unambiguous? Could an AI agent implement from this without questions?
- **Structure**: Is it well-organized with clear sections and consistent formatting?
- **Consistency**: Does it align with the project's existing patterns and conventions (check "#;

/// Part 11 of the prompt for reviewing a document.
pub const REVIEW_PROMPT_K: &'static str = r#", existing code)?
- **Feasibility**: Are the proposed approaches realistic given the codebase?

## Rules

- You MUST read the document first before making any assessment
- Explore the codebase (using Read, Glob, Grep) to validate that proposals are feasible
- Make changes directly — do not just list suggestions
- Preserve the author's intent — improve clarity and coverage, do not redesign
- If the document is already comprehensive and clear, do not make changes just for the sake of it
- Focus on substantive issues, not minor stylistic preferences

## Sigils

After your review, emit exactly one of these sigils:

- `<review-pass/>` — The document is comprehensive, clear, and ready for use. No major issues found.
- `<review-changes>summary of what you changed</review-changes>` — You made substantive improvements. Briefly describe what changed.

You MUST emit one of these sigils. If you made any changes to the file, use `<review-changes>`. If the document was already good, use `<review-pass/>`."#;

/// The prompt for reviewing a document, by its parts.
pub open spec fn review_prompt_of(
    label: Seq<char>,
    feature_name: Seq<char>,
    document_path: Seq<char>,
    round_note: Seq<char>,
    spec_section: Seq<char>,
    project_context: Seq<char>,
    kind_specific_criteria: Seq<char>,
    guide: Seq<char>,
) -> Seq<char> {
    REVIEW_PROMPT_A@ + label + REVIEW_PROMPT_B@ + feature_name + REVIEW_PROMPT_C@ + document_path
        + REVIEW_PROMPT_D@ + round_note + REVIEW_PROMPT_E@ + spec_section + REVIEW_PROMPT_F@
        + project_context + REVIEW_PROMPT_G@ + label + REVIEW_PROMPT_H@ + document_path
        + REVIEW_PROMPT_I@ + kind_specific_criteria + REVIEW_PROMPT_J@ + guide + REVIEW_PROMPT_K@
}

/// Fills in the prompt for reviewing a document.
fn fill_review_prompt(
    label: &str,
    feature_name: &str,
    document_path: &str,
    round_note: &str,
    spec_section: &str,
    project_context: &str,
    kind_specific_criteria: &str,
    guide: &str,
) -> (r: String)
    ensures
        r@ == review_prompt_of(
            label@,
            feature_name@,
            document_path@,
            round_note@,
            spec_section@,
            project_context@,
            kind_specific_criteria@,
            guide@,
        ),
{
    let mut r = REVIEW_PROMPT_A.to_owned();
    r.append(label);
    r.append(REVIEW_PROMPT_B);
    r.append(feature_name);
    r.append(REVIEW_PROMPT_C);
    r.append(document_path);
    r.append(REVIEW_PROMPT_D);
    r.append(round_note);
    r.append(REVIEW_PROMPT_E);
    r.append(spec_section);
    r.append(REVIEW_PROMPT_F);
    r.append(project_context);
    r.append(REVIEW_PROMPT_G);
    r.append(label);
    r.append(REVIEW_PROMPT_H);
    r.append(document_path);
    r.append(REVIEW_PROMPT_I);
    r.append(kind_specific_criteria);
    r.append(REVIEW_PROMPT_J);
    r.append(guide);
    r.append(REVIEW_PROMPT_K);
    r
}

/// What a kind of document is assessed for.
pub open spec fn criteria(k: DocumentKind) -> Seq<char> {
    match k {
        DocumentKind::Spec => SPEC_CRITERIA@,
        DocumentKind::Plan => PLAN_CRITERIA@,
    }
}

/// The section with the spec, where there is one.
pub open spec fn spec_section(spec: Option<Seq<char>>) -> Seq<char> {
    match spec {
        Some(s) => "## Feature Specification\n\n"@ + s + "\n"@,
        None => Seq::empty(),
    }
}

/// The note on the round, behind the first.
pub open spec fn round_note(round: u32) -> Seq<char> {
    if round > 1 {
        "\n**This is review round "@ + decimal(round as nat)
            + ".** Previous rounds made changes. Focus on remaining issues only — do not re-apply changes that are already present.\n"@
    } else {
        Seq::empty()
    }
}

/// The prompt for reviewing a document.
pub open spec fn review_prompt(
    document_path: Seq<char>,
    kind: DocumentKind,
    feature_name: Seq<char>,
    spec: Option<Seq<char>>,
    project_context: Seq<char>,
    round: u32,
    guide: Seq<char>,
) -> Seq<char> {
    review_prompt_of(
        kind_label(kind),
        feature_name,
        document_path,
        round_note(round),
        spec_section(spec),
        project_context,
        criteria(kind),
        guide,
    )
}

/// Builds the prompt for reviewing a document, in a project whose notes for
/// agents are in the file `guide`.
pub fn build_review_prompt(
    document_path: &str,
    kind: DocumentKind,
    feature_name: &str,
    spec_content: Option<&str>,
    project_context: &str,
    round: u32,
    guide: &str,
) -> (r: String)
    ensures
        r@ == review_prompt(
            document_path@,
            kind,
            feature_name@,
            opt_str(spec_content),
            project_context@,
            round,
            guide@,
        ),
{
    let mut spec_part = String::new();
    match spec_content {
        Some(s) => {
            spec_part = "## Feature Specification\n\n".to_owned();
            spec_part.append(s);
            spec_part.append("\n");
        },
        None => {
            assert(spec_part@ =~= Seq::empty());
        },
    }
    let mut note = String::new();
    if round > 1 {
        note = "\n**This is review round ".to_owned();
        note.append(decimal_text(round as u64).as_str());
        note.append(
            ".** Previous rounds made changes. Focus on remaining issues only — do not re-apply changes that are already present.\n",
        );
    } else {
        assert(note@ =~= Seq::empty());
    }
    let asked = match kind {
        DocumentKind::Spec => SPEC_CRITERIA,
        DocumentKind::Plan => PLAN_CRITERIA,
    };
    fill_review_prompt(
        kind.label(),
        feature_name,
        document_path,
        note.as_str(),
        spec_part.as_str(),
        project_context,
        asked,
        guide,
    )
}

/// Parses the `<review-pass/>` sigil from result text.
pub fn parse_review_pass(text: &str) -> (r: bool)
    ensures
        r == contains(text@, "<review-pass/>"@),
{
    has(text, "<review-pass/>")
}

/// The summary of the changes that a review made.
pub open spec fn review_changes(text: Seq<char>) -> Option<Seq<char>> {
    filled_content(text, "<review-changes>"@, "</review-changes>"@)
}

/// Parses the `<review-changes>...</review-changes>` sigil from result text.
pub fn parse_review_changes(text: &str) -> (r: Option<String>)
    ensures
        opt_text(r) == review_changes(text@),
{
    match text_between(text, "<review-changes>", "</review-changes>") {
        Some(t) => {
            let s = trimmed(t.as_str());
            if s.as_str().is_empty() {
                None
            } else {
                Some(s)
            }
        },
        None => None,
    }
}

/// Result of a single review round.
#[derive(Debug)]
pub struct ReviewResult {
    pub passed: bool,
    pub changes_summary: String,
}

/// The document is not passed: the text tells of changes, and does not pass it.
pub open spec fn tells_changes(text: Option<Seq<char>>) -> bool {
    match text {
        Some(t) => !contains(t, "<review-pass/>"@) && review_changes(t) is Some,
        None => false,
    }
}

/// Reads the answer of a review agent. Without a sigil the document passes, so
/// that a review ends.
pub fn read_review(text: Option<&str>) -> (r: ReviewResult)
    ensures
        r.passed == !tells_changes(opt_str(text)),
        r.changes_summary@ == (if tells_changes(opt_str(text)) {
            review_changes(text->0@)->0
        } else {
            Seq::empty()
        }),
{
    match text {
        Some(t) => {
            if !parse_review_pass(t) {
                match parse_review_changes(t) {
                    Some(s) => {
                        return ReviewResult { passed: false, changes_summary: s };
                    },
                    None => {},
                }
            }
        },
        None => {},
    }
    let r = ReviewResult { passed: true, changes_summary: String::new() };
    assert(r.changes_summary@ =~= Seq::empty());
    r
}

/// How a review goes on behind a round.
#[derive(Debug, Clone, Copy, PartialEq, Eq, Structural)]
pub enum ReviewStep {
    /// The document passed in this round.
    Passed(u32),
    /// Another round follows.
    Again(u32),
    /// The rounds are used up.
    Exhausted,
}

/// How a review goes on behind the `round`-th round, which counts from 1.
pub fn review_document(round: u32, passed: bool) -> (r: ReviewStep)
    requires
        1 <= round <= MAX_REVIEW_ROUNDS,
    ensures
        r == (if passed {
            ReviewStep::Passed(round)
        } else if round < MAX_REVIEW_ROUNDS {
            ReviewStep::Again((round + 1) as u32)
        } else {
            ReviewStep::Exhausted
        }),
        r matches ReviewStep::Again(n) ==> round < n <= MAX_REVIEW_ROUNDS,
        r is Exhausted <==> !passed && round == 5,
{
    if passed {
        ReviewStep::Passed(round)
    } else if round < MAX_REVIEW_ROUNDS {
        ReviewStep::Again(round + 1)
    } else {
        ReviewStep::Exhausted
    }
}

/// A review passes the document unless its text tells of changes: the sign that
/// it passes counts wherever it stands, and without any sign it passes too. What
/// the changes are comes out trimmed; blank ones count for nothing.
pub proof fn law_review_verdict(before: Seq<char>, inner: Seq<char>, after: Seq<char>)
    requires
        !contains(before, "<review-changes>"@),
        !contains(inner, "</review-changes>"@),
    ensures
        ({
            let text = before + "<review-changes>"@ + inner + "</review-changes>"@ + after;
            &&& tells_changes(Some(text)) <==> trim(inner).len() > 0 && !contains(
                text,
                "<review-pass/>"@,
            )
            &&& trim(inner).len() > 0 ==> review_changes(text) == Some(trim(inner))
            &&& !tells_changes(None)
            &&& !tells_changes(Some(before))
        }),
{
    reveal_strlit("<review-changes>");
    reveal_strlit("</review-changes>");
    crate::acp::laws::lemma_tag_reads(
        before,
        "<review-changes>"@,
        inner,
        "</review-changes>"@,
        after,
    );
    crate::text::search::lemma_find_least(before, "<review-changes>"@, 0);
}

/// The prompt names the document, the feature, the project's context and guide,
/// shows the spec where there is one, and tells of earlier rounds in every round
/// but the first.
pub proof fn law_review_prompt_tells(
    document_path: Seq<char>,
    kind: DocumentKind,
    feature_name: Seq<char>,
    spec: Option<Seq<char>>,
    project_context: Seq<char>,
    round: u32,
    guide: Seq<char>,
)
    ensures
        ({
            let p = review_prompt(
                document_path,
                kind,
                feature_name,
                spec,
                project_context,
                round,
                guide,
            );
            &&& contains(p, document_path)
            &&& contains(p, feature_name)
            &&& contains(p, project_context)
            &&& contains(p, guide)
            &&& spec is Some ==> contains(p, spec->0)
            &&& round >= 2 ==> contains(p, "\n**This is review round "@ + decimal(round as nat))
            &&& round < 2 ==> round_note(round).len() == 0
        }),
{
    let label = kind_label(kind);
    let note = round_note(round);
    let section = spec_section(spec);
    let asked = criteria(kind);
    let p = review_prompt(document_path, kind, feature_name, spec, project_context, round, guide);
    let a = REVIEW_PROMPT_A@ + label + REVIEW_PROMPT_B@;
    let b = a + feature_name + REVIEW_PROMPT_C@;
    let c = b + document_path + REVIEW_PROMPT_D@;
    let d = c + note + REVIEW_PROMPT_E@;
    let e = d + section + REVIEW_PROMPT_F@;
    let f = e + project_context + REVIEW_PROMPT_G@;
    let g = f + label + REVIEW_PROMPT_H@;
    let h = g + document_path + REVIEW_PROMPT_I@;
    let k = h + asked + REVIEW_PROMPT_J@;
    assert(p == k + guide + REVIEW_PROMPT_K@);
    lemma_part(k, guide, REVIEW_PROMPT_K@);
    lemma_part(e, project_context, REVIEW_PROMPT_G@);
    lemma_later(f, label, g, REVIEW_PROMPT_H@, document_path, h, REVIEW_PROMPT_I@, project_context);
    lemma_two_more(h, asked, REVIEW_PROMPT_J@, project_context);
    lemma_two_more(k, guide, REVIEW_PROMPT_K@, project_context);
    lemma_part(g, document_path, REVIEW_PROMPT_I@);
    lemma_two_more(h, asked, REVIEW_PROMPT_J@, document_path);
    lemma_two_more(k, guide, REVIEW_PROMPT_K@, document_path);
    lemma_part(a, feature_name, REVIEW_PROMPT_C@);
    lemma_part(c, note, REVIEW_PROMPT_E@);
    lemma_part(d, section, REVIEW_PROMPT_F@);
    lemma_two_more(b, document_path, REVIEW_PROMPT_D@, feature_name);
    lemma_two_more(c, note, REVIEW_PROMPT_E@, feature_name);
    lemma_two_more(d, section, REVIEW_PROMPT_F@, feature_name);
    lemma_two_more(d, section, REVIEW_PROMPT_F@, note);
    lemma_two_more(e, project_context, REVIEW_PROMPT_G@, feature_name);
    lemma_two_more(e, project_context, REVIEW_PROMPT_G@, note);
    lemma_two_more(e, project_context, REVIEW_PROMPT_G@, section);
    lemma_later(f, label, g, REVIEW_PROMPT_H@, document_path, h, REVIEW_PROMPT_I@, feature_name);
    lemma_later(f, label, g, REVIEW_PROMPT_H@, document_path, h, REVIEW_PROMPT_I@, note);
    lemma_later(f, label, g, REVIEW_PROMPT_H@, document_path, h, REVIEW_PROMPT_I@, section);
    lemma_two_more(h, asked, REVIEW_PROMPT_J@, feature_name);
    lemma_two_more(h, asked, REVIEW_PROMPT_J@, note);
    lemma_two_more(h, asked, REVIEW_PROMPT_J@, section);
    lemma_two_more(k, guide, REVIEW_PROMPT_K@, feature_name);
    lemma_two_more(k, guide, REVIEW_PROMPT_K@, note);
    lemma_two_more(k, guide, REVIEW_PROMPT_K@, section);
    if spec is Some {
        lemma_part("## Feature Specification\n\n"@, spec->0, "\n"@);
        lemma_inside(p, section, spec->0);
    }
    if round >= 2 {
        let head = "\n**This is review round "@ + decimal(round as nat);
        let tail = ".** Previous rounds made changes. Focus on remaining issues only — do not re-apply changes that are already present.\n"@;
        assert(note =~= Seq::<char>::empty() + head + tail);
        lemma_part(Seq::empty(), head, tail);
        lemma_inside(p, note, head);
    }
}

/// What a text holds, it holds with two parts more behind it.
proof fn lemma_two_more(s: Seq<char>, a: Seq<char>, b: Seq<char>, t: Seq<char>)
    ensures
        contains(s, t) ==> contains(s + a + b, t),
{
    if contains(s, t) {
        crate::text::search::lemma_contains_left(s, a, t);
        crate::text::search::lemma_contains_left(s + a, b, t);
    }
}

proof fn lemma_later(
    f: Seq<char>,
    label: Seq<char>,
    g: Seq<char>,
    x: Seq<char>,
    path: Seq<char>,
    h: Seq<char>,
    y: Seq<char>,
    t: Seq<char>,
)
    requires
        g == f + label + x,
        h == g + path + y,
    ensures
        contains(f, t) ==> contains(h, t),
{
    lemma_two_more(f, label, x, t);
    lemma_two_more(g, path, y, t);
}

pub proof fn lemma_part(a: Seq<char>, t: Seq<char>, b: Seq<char>)
    ensures
        contains(a + t + b, t),
{
    crate::text::search::law_occurrence(a, t, b, t, 0);
}

pub proof fn lemma_grown(whole: Seq<char>, start: Seq<char>, t: Seq<char>)
    requires
        contains(start, t),
        start.is_prefix_of(whole),
    ensures
        contains(whole, t),
{
    let i = choose|i: int| #[trigger] crate::text::search::occurs_at(start, t, i);
    assert(whole.subrange(i, i + t.len()) =~= start.subrange(i, i + t.len()));
    assert(crate::text::search::occurs_at(whole, t, i));
}

pub proof fn lemma_inside(whole: Seq<char>, mid: Seq<char>, t: Seq<char>)
    requires
        contains(whole, mid),
        contains(mid, t),
    ensures
        contains(whole, t),
{
    let i = choose|i: int| #[trigger] crate::text::search::occurs_at(whole, mid, i);
    let j = choose|j: int| #[trigger] crate::text::search::occurs_at(mid, t, j);
    assert(whole.subrange(i, i + mid.len()) =~= mid);
    assert(whole.subrange(i + j, i + j + t.len()) =~= mid.subrange(j, j + t.len()));
    assert(crate::text::search::occurs_at(whole, t, i + j));
}

/// The arguments of a review agent.
pub open spec fn review_args(
    prompt: Seq<char>,
    kind: DocumentKind,
    document_path: Seq<char>,
) -> Seq<Seq<char>> {
    seq![
        "--print"@,
        "--verbose"@,
        "--output-format"@,
        "stream-json"@,
        "--no-session-persistence"@,
        "--model"@,
        "opus"@,
        "--allowed-tools"@,
        "Bash Edit Write Read Glob Grep"@,
        "--system-prompt"@,
        prompt,
        "Review the "@ + kind_label(kind) + " at "@ + document_path + " and improve it."@,
    ]
}

/// Builds the arguments of a review agent.
pub fn build_review_args(prompt: &str, kind: DocumentKind, document_path: &str) -> (r: Vec<String>)
    ensures
        texts(r@) == review_args(prompt@, kind, document_path@),
{
    let mut message = "Review the ".to_owned();
    message.append(kind.label());
    message.append(" at ");
    message.append(document_path);
    message.append(" and improve it.");
    let mut args: Vec<String> = Vec::new();
    args.push("--print".to_owned());
    args.push("--verbose".to_owned());
    args.push("--output-format".to_owned());
    args.push("stream-json".to_owned());
    args.push("--no-session-persistence".to_owned());
    args.push("--model".to_owned());
    args.push("opus".to_owned());
    args.push("--allowed-tools".to_owned());
    args.push("Bash Edit Write Read Glob Grep".to_owned());
    args.push("--system-prompt".to_owned());
    args.push(prompt.to_owned());
    args.push(message);
    assert(texts(args@) =~= review_args(prompt@, kind, document_path@));
    args
}

/// A review is run by the strongest model, under the prompt of its round, and is
/// told the kind of the document and where it is.
pub proof fn law_review_arguments(prompt: Seq<char>, kind: DocumentKind, path: Seq<char>)
    ensures
        ({
            let args = review_args(prompt, kind, path);
            let told = args.last();
            &&& exists|i: int|
                0 <= i < args.len() - 1 && #[trigger] args[i] == "--model"@ && args[i + 1] == "opus"@
            &&& exists|i: int|
                0 <= i < args.len() - 1 && #[trigger] args[i] == "--system-prompt"@ && args[i + 1]
                    == prompt
            &&& contains(told, path)
            &&& kind == DocumentKind::Spec ==> told == "Review the spec at "@ + path
                + " and improve it."@
            &&& kind == DocumentKind::Plan ==> told == "Review the plan at "@ + path
                + " and improve it."@
        }),
{
    let args = review_args(prompt, kind, path);
    assert(args[5] == "--model"@ && args[6] == "opus"@);
    assert(args[9] == "--system-prompt"@ && args[10] == prompt);
    lemma_part("Review the "@ + kind_label(kind) + " at "@, path, " and improve it."@);
    reveal_strlit("Review the ");
    reveal_strlit("spec");
    reveal_strlit("plan");
    reveal_strlit(" at ");
    reveal_strlit("Review the spec at ");
    reveal_strlit("Review the plan at ");
    assert("Review the "@ + "spec"@ + " at "@ =~= "Review the spec at "@);
    assert("Review the "@ + "plan"@ + " at "@ =~= "Review the plan at "@);
}

} // verus!
