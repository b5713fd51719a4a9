//! One-line summaries and detail lines of tool calls.

use vstd::prelude::*;

use crate::text::basic::{chars_of, opt_text, same, slice_text, texts};
use crate::text::case::{lower, lowercase};
use crate::text::search::{contains, has};
use crate::text::shape::{first_line, first_line_of, join, joined, trim, trimmed};

verus! {

/// The first line of a text, cut to `max` characters with `...` behind it where
/// it has more.
pub open spec fn cut_line(s: Seq<char>, max: nat) -> Seq<char> {
    let l = first_line(s);
    if l.len() > max {
        l.take(max as int) + "..."@
    } else {
        l
    }
}

/// Truncates a string to at most one line and `max_chars` characters.
///
/// Takes only the first line. If the result exceeds `max_chars`, truncates
/// and appends `...`.
pub fn truncate_to_line(s: &str, max_chars: usize) -> (r: String)
    ensures
        r@ == cut_line(s@, max_chars as nat),
{
    let l = first_line_of(s);
    let cs = chars_of(l.as_str());
    if cs.len() > max_chars {
        let mut r = slice_text(&cs, 0, max_chars);
        assert(r@ =~= l@.take(max_chars as int));
        r.append("...");
        r
    } else {
        l
    }
}

/// A truncated line has at most `max` characters, but for the dots.
pub proof fn law_cut_line_is_short(s: Seq<char>, max: nat)
    ensures
        cut_line(s, max).len() <= max + 3,
        first_line(s).len() <= max ==> cut_line(s, max) == first_line(s),
{
    reveal_strlit("...");
}

/// Where the part of a path begins that is behind the `count`-th slash from
/// the end, looking before `i`; at the start where there are fewer.
pub open spec fn tail_start(s: Seq<char>, i: int, count: int) -> int
    decreases i,
{
    if i <= 0 {
        0
    } else if s[i - 1] == '/' {
        if count <= 1 {
            i
        } else {
            tail_start(s, i - 1, count - 1)
        }
    } else {
        tail_start(s, i - 1, count)
    }
}

/// The last three components of a path.
pub open spec fn short_path(s: Seq<char>) -> Seq<char> {
    s.skip(tail_start(s, s.len() as int, 3))
}

/// Shortens a file path to its last 3 components for display.
pub fn shorten_path(path: &str) -> (r: String)
    ensures
        r@ == short_path(path@),
{
    let cs = chars_of(path);
    let mut i: usize = cs.len();
    let mut count: u32 = 3;
    while i > 0
        invariant
            i <= cs@.len(),
            1 <= count <= 3,
            cs@ == path@,
            tail_start(path@, path@.len() as int, 3) == tail_start(path@, i as int, count as int),
        decreases i,
    {
        if cs[i - 1] == '/' {
            if count == 1 {
                let r = slice_text(&cs, i, cs.len());
                assert(r@ =~= short_path(path@));
                return r;
            }
            count = count - 1;
        }
        i = i - 1;
    }
    assert(short_path(path@) =~= path@);
    path.to_owned()
}

/// The input is more than an empty object or nothing.
pub open spec fn is_filled(input: Seq<char>) -> bool {
    input.len() > 0 && input != "{}"@ && input != "null"@
}

/// Whether the input is more than an empty object or nothing.
pub fn is_filled_input(input: &str) -> (r: bool)
    ensures
        r == is_filled(input@),
{
    !input.is_empty() && !same(input, "{}") && !same(input, "null")
}

/// Checks whether a tool call has enough data for a useful summary line.
///
/// Returns `true` if there are locations or non-trivial input to display.
pub fn has_useful_summary(input: &str, locations: &Vec<String>) -> (r: bool)
    ensures
        r == (locations@.len() > 0 || is_filled(trim(input@))),
{
    if locations.len() > 0 {
        return true;
    }
    is_filled_input(trimmed(input).as_str())
}

/// A field of a JSON object.
#[derive(Debug)]
pub struct Field {
    pub key: String,
    /// The value, where it is a string.
    pub text: Option<String>,
    /// The value as JSON.
    pub json: String,
}

/// What a field holds.
pub struct FieldView {
    pub key: Seq<char>,
    pub text: Option<Seq<char>>,
    pub json: Seq<char>,
}

impl View for Field {
    type V = FieldView;

    open spec fn view(&self) -> FieldView {
        FieldView { key: self.key@, text: opt_text(self.text), json: self.json@ }
    }
}

/// The views of a list of fields.
pub open spec fn field_views(v: Seq<Field>) -> Seq<FieldView> {
    v.map_values(|f: Field| f@)
}

/// The fields of a JSON text: none where it is no object; nothing at all where
/// it is no JSON.
pub uninterp spec fn json_fields(text: Seq<char>) -> Option<Seq<FieldView>>;

/// `serde_json::from_str` reads a JSON value. The result depends on the text
/// alone; of a value that is an object, each entry becomes a field.
#[verifier::external_body]
pub(crate) fn read_fields(text: &str) -> (r: Option<Vec<Field>>)
    ensures
        match r {
            Some(v) => json_fields(text@) == Some(field_views(v@)),
            None => json_fields(text@) is None,
        },
{
    let value: serde_json::Value = serde_json::from_str(text).ok()?;
    let entries = value.as_object().cloned().unwrap_or_default();
    Some(
        entries.into_iter().map(
            |(key, v)| Field { key, text: v.as_str().map(String::from), json: v.to_string() },
        ).collect(),
    )
}

/// The first field with the key, from `from` on.
pub open spec fn field_from(f: Seq<FieldView>, key: Seq<char>, from: int) -> Option<FieldView>
    decreases f.len() - from,
{
    if 0 <= from < f.len() {
        if f[from].key == key {
            Some(f[from])
        } else {
            field_from(f, key, from + 1)
        }
    } else {
        None
    }
}

/// The field with the key.
pub open spec fn field(f: Seq<FieldView>, key: Seq<char>) -> Option<FieldView> {
    field_from(f, key, 0)
}

/// The string behind the key, where there is one.
pub open spec fn string_at(f: Seq<FieldView>, key: Seq<char>) -> Option<Seq<char>> {
    match field(f, key) {
        Some(x) => x.text,
        None => None,
    }
}

/// One field, or another where it is absent.
pub open spec fn or_field(a: Option<FieldView>, b: Option<FieldView>) -> Option<FieldView> {
    match a {
        Some(x) => Some(x),
        None => b,
    }
}

/// The string of a field.
pub open spec fn string_of(a: Option<FieldView>) -> Option<Seq<char>> {
    match a {
        Some(x) => x.text,
        None => None,
    }
}

/// The field that names a file.
pub open spec fn file_field(f: Seq<FieldView>) -> Option<FieldView> {
    or_field(field(f, "file_path"@), field(f, "path"@))
}

/// The view of an optional field.
pub open spec fn field_view(o: Option<&Field>) -> Option<FieldView> {
    match o {
        Some(x) => Some(x@),
        None => None,
    }
}

/// Finds the field with the key.
fn find_field<'a>(fields: &'a Vec<Field>, key: &str) -> (r: Option<&'a Field>)
    ensures
        field_view(r) == field(field_views(fields@), key@),
{
    let ghost f = field_views(fields@);
    let mut i: usize = 0;
    while i < fields.len()
        invariant
            i <= fields@.len(),
            f == field_views(fields@),
            field(f, key@) == field_from(f, key@, i as int),
        decreases fields@.len() - i,
    {
        assert(f[i as int] == fields@[i as int]@);
        if same(fields[i].key.as_str(), key) {
            return Some(&fields[i]);
        }
        i = i + 1;
    }
    None
}

/// The string behind the key.
fn find_string<'a>(fields: &'a Vec<Field>, key: &str) -> (r: Option<&'a str>)
    ensures
        crate::text::basic::opt_str(r) == string_at(field_views(fields@), key@),
{
    match find_field(fields, key) {
        Some(x) => match &x.text {
            Some(t) => Some(t.as_str()),
            None => None,
        },
        None => None,
    }
}

/// The field that names a file.
fn find_file<'a>(fields: &'a Vec<Field>) -> (r: Option<&'a Field>)
    ensures
        field_view(r) == file_field(field_views(fields@)),
{
    match find_field(fields, "file_path") {
        Some(x) => Some(x),
        None => find_field(fields, "path"),
    }
}

/// The string of a field.
fn string_in<'a>(o: Option<&'a Field>) -> (r: Option<&'a str>)
    ensures
        crate::text::basic::opt_str(r) == string_of(field_view(o)),
{
    match o {
        Some(x) => match &x.text {
            Some(t) => Some(t.as_str()),
            None => None,
        },
        None => None,
    }
}

/// The tool reads, edits or writes files.
pub open spec fn is_file_tool(name: Seq<char>) -> bool {
    contains(name, "read"@) || contains(name, "edit"@) || contains(name, "write"@) || contains(
        name,
        "notebook"@,
    )
}

/// The tool runs commands.
pub open spec fn is_shell_tool(name: Seq<char>) -> bool {
    contains(name, "bash"@) || contains(name, "terminal"@) || name == "execute"@
}

/// The tool searches.
pub open spec fn is_search_tool(name: Seq<char>) -> bool {
    contains(name, "grep"@) || contains(name, "search"@) || contains(name, "glob"@)
}

/// The tool fetches from the web.
pub open spec fn is_web_tool(name: Seq<char>) -> bool {
    contains(name, "fetch"@) || contains(name, "web"@)
}

/// The tool starts a task or an agent.
pub open spec fn is_task_tool(name: Seq<char>) -> bool {
    contains(name, "task"@) || contains(name, "agent"@)
}

/// The first line of the string, cut; none where the field is no string.
pub open spec fn cut_string(x: FieldView, max: nat) -> Option<Seq<char>> {
    match x.text {
        Some(t) => Some(cut_line(t, max)),
        None => None,
    }
}

/// The label of a common field: a path is shortened, any other is cut.
pub open spec fn common_label(key: Seq<char>, text: Seq<char>, max: nat) -> Seq<char> {
    if key == "file_path"@ || key == "path"@ {
        short_path(text)
    } else {
        cut_line(text, max)
    }
}

/// The names of common fields.
pub open spec fn common_keys() -> Seq<Seq<char>> {
    seq!["file_path"@, "path"@, "command"@, "pattern"@, "query"@, "url"@]
}

/// The labels of the first `n` common fields that are strings.
pub open spec fn common_labels(f: Seq<FieldView>, n: nat, max: nat) -> Seq<Seq<char>>
    decreases n,
{
    if n == 0 {
        Seq::empty()
    } else {
        let rest = common_labels(f, (n - 1) as nat, max);
        let key = common_keys()[n - 1];
        match string_at(f, key) {
            Some(t) => rest.push(common_label(key, t, max)),
            None => rest,
        }
    }
}

/// What a search looks for, and where; nothing where one of the two is no
/// string.
pub open spec fn search_summary(f: Seq<FieldView>) -> Option<Option<Seq<char>>> {
    let pattern = field(f, "pattern"@);
    let path = field(f, "path"@);
    if (pattern is Some && pattern->0.text is None) || (path is Some && path->0.text is None) {
        None
    } else {
        match (pattern, path) {
            (Some(a), Some(b)) => Some(
                Some("/"@ + a.text->0 + "/"@ + " in "@ + short_path(b.text->0)),
            ),
            (Some(a), None) => Some(Some("/"@ + a.text->0 + "/"@)),
            (None, Some(b)) => Some(Some(short_path(b.text->0))),
            (None, None) => Some(None),
        }
    }
}

/// A meaningful one-liner on a tool call, by the tool's name in lower case.
pub open spec fn metadata(name: Seq<char>, f: Seq<FieldView>) -> Option<Seq<char>> {
    if is_file_tool(name) && file_field(f) is Some {
        match file_field(f)->0.text {
            Some(t) => Some(short_path(t)),
            None => None,
        }
    } else if is_shell_tool(name) && field(f, "command"@) is Some {
        cut_string(field(f, "command"@)->0, 120)
    } else if is_search_tool(name) && search_summary(f) is None {
        None
    } else if is_search_tool(name) && search_summary(f)->0 is Some {
        search_summary(f)->0
    } else if is_web_tool(name) && field(f, "url"@) is Some {
        cut_string(field(f, "url"@)->0, 120)
    } else if is_task_tool(name) && field(f, "description"@) is Some {
        cut_string(field(f, "description"@)->0, 80)
    } else if is_task_tool(name) && field(f, "prompt"@) is Some {
        cut_string(field(f, "prompt"@)->0, 80)
    } else {
        let l = common_labels(f, 6, 120);
        if l.len() > 0 {
            Some(l[0])
        } else {
            None
        }
    }
}

/// The paths, shortened.
pub open spec fn short_paths(p: Seq<Seq<char>>) -> Seq<Seq<char>> {
    p.map_values(|s: Seq<char>| short_path(s))
}

/// A concise summary of what a tool call is doing, by the tool's name in lower
/// case and the fields of its input, where that is JSON.
pub open spec fn summary(
    name: Seq<char>,
    raw_input: Seq<char>,
    fields: Option<Seq<FieldView>>,
    locations: Seq<Seq<char>>,
) -> Seq<char> {
    if locations.len() > 0 {
        join(short_paths(locations), ", "@)
    } else if fields is Some && metadata(name, fields->0) is Some {
        metadata(name, fields->0)->0
    } else if !is_filled(trim(raw_input)) {
        Seq::empty()
    } else {
        cut_line(raw_input, 120)
    }
}

/// The labels of the first `n` common fields that are strings.
fn list_common(fields: &Vec<Field>, max: usize) -> (r: Vec<String>)
    ensures
        texts(r@) == common_labels(field_views(fields@), 6, max as nat),
{
    let ghost f = field_views(fields@);
    let mut keys: Vec<String> = Vec::new();
    keys.push("file_path".to_owned());
    keys.push("path".to_owned());
    keys.push("command".to_owned());
    keys.push("pattern".to_owned());
    keys.push("query".to_owned());
    keys.push("url".to_owned());
    assert(texts(keys@) =~= common_keys());
    let mut r: Vec<String> = Vec::new();
    let mut i: usize = 0;
    assert(texts(r@) =~= common_labels(f, 0, max as nat));
    while i < 6
        invariant
            i <= 6,
            keys@.len() == 6,
            texts(keys@) == common_keys(),
            f == field_views(fields@),
            texts(r@) == common_labels(f, i as nat, max as nat),
        decreases 6 - i,
    {
        let key = keys[i].as_str();
        assert(texts(keys@)[i as int] == key@);
        match find_string(fields, key) {
            Some(t) => {
                let label = if same(key, "file_path") || same(key, "path") {
                    shorten_path(t)
                } else {
                    truncate_to_line(t, max)
                };
                let ghost lv = label@;
                let ghost before = r@;
                r.push(label);
                assert(texts(r@) =~= texts(before).push(lv));
            },
            None => {},
        }
        i = i + 1;
    }
    r
}

/// What a search looks for, and where.
fn summarize_search(fields: &Vec<Field>) -> (r: Option<Option<String>>)
    ensures
        match search_summary(field_views(fields@)) {
            None => r is None,
            Some(o) => r is Some && opt_text(r->0) == o,
        },
{
    let mut out: Option<String> = None;
    match find_field(fields, "pattern") {
        Some(x) => match &x.text {
            Some(t) => {
                let mut s = "/".to_owned();
                s.append(t.as_str());
                s.append("/");
                out = Some(s);
            },
            None => {
                return None;
            },
        },
        None => {},
    }
    match find_field(fields, "path") {
        Some(x) => match &x.text {
            Some(t) => {
                let p = shorten_path(t.as_str());
                match out {
                    Some(s) => {
                        let mut s = s;
                        s.append(" in ");
                        s.append(p.as_str());
                        out = Some(s);
                    },
                    None => {
                        out = Some(p);
                    },
                }
            },
            None => {
                return None;
            },
        },
        None => {},
    }
    Some(out)
}

/// The first line of a field's string, cut.
fn cut_field(x: &Field, max: usize) -> (r: Option<String>)
    ensures
        opt_text(r) == cut_string(x@, max as nat),
{
    match &x.text {
        Some(t) => Some(truncate_to_line(t.as_str(), max)),
        None => None,
    }
}

/// Whether the tool reads, edits or writes files.
fn file_tool(name: &str) -> (r: bool)
    ensures
        r == is_file_tool(name@),
{
    has(name, "read") || has(name, "edit") || has(name, "write") || has(name, "notebook")
}

/// Whether the tool runs commands.
fn shell_tool(name: &str) -> (r: bool)
    ensures
        r == is_shell_tool(name@),
{
    has(name, "bash") || has(name, "terminal") || same(name, "execute")
}

/// Whether the tool searches.
fn search_tool(name: &str) -> (r: bool)
    ensures
        r == is_search_tool(name@),
{
    has(name, "grep") || has(name, "search") || has(name, "glob")
}

/// Whether the tool fetches from the web.
fn web_tool(name: &str) -> (r: bool)
    ensures
        r == is_web_tool(name@),
{
    has(name, "fetch") || has(name, "web")
}

/// Whether the tool starts a task or an agent.
fn task_tool(name: &str) -> (r: bool)
    ensures
        r == is_task_tool(name@),
{
    has(name, "task") || has(name, "agent")
}

/// Extracts a meaningful one-liner from tool input based on the tool's name in
/// lower case.
pub fn extract_tool_metadata(name: &str, fields: &Vec<Field>) -> (r: Option<String>)
    ensures
        opt_text(r) == metadata(name@, field_views(fields@)),
{
    if file_tool(name) {
        match find_file(fields) {
            Some(x) => {
                return match &x.text {
                    Some(t) => Some(shorten_path(t.as_str())),
                    None => None,
                };
            },
            None => {},
        }
    }
    if shell_tool(name) {
        match find_field(fields, "command") {
            Some(x) => {
                return cut_field(x, 120);
            },
            None => {},
        }
    }
    if search_tool(name) {
        match summarize_search(fields) {
            None => {
                return None;
            },
            Some(Some(s)) => {
                return Some(s);
            },
            Some(None) => {},
        }
    }
    if web_tool(name) {
        match find_field(fields, "url") {
            Some(x) => {
                return cut_field(x, 120);
            },
            None => {},
        }
    }
    if task_tool(name) {
        match find_field(fields, "description") {
            Some(x) => {
                return cut_field(x, 80);
            },
            None => {},
        }
        match find_field(fields, "prompt") {
            Some(x) => {
                return cut_field(x, 80);
            },
            None => {},
        }
    }
    let all = list_common(fields, 120);
    let ghost l = texts(all@);
    assert(l.len() == all@.len());
    if all.len() > 0 {
        assert(l[0] == all@[0]@);
        Some(all[0].clone())
    } else {
        None
    }
}

/// Builds a concise summary of what a tool call is doing, given the tool's name
/// in lower case and the fields of its input, where that is JSON.
pub fn summarize(
    name: &str,
    raw_input: &str,
    fields: &Option<Vec<Field>>,
    locations: &Vec<String>,
) -> (r: String)
    ensures
        r@ == summary(name@, raw_input@, opt_fields(*fields), texts(locations@)),
{
    if locations.len() > 0 {
        let ghost all = texts(locations@);
        let mut paths: Vec<String> = Vec::new();
        let mut i: usize = 0;
        while i < locations.len()
            invariant
                i <= locations@.len(),
                all == texts(locations@),
                texts(paths@) == short_paths(all).take(i as int),
            decreases locations@.len() - i,
        {
            let p = shorten_path(locations[i].as_str());
            let ghost pv = p@;
            let ghost before = paths@;
            assert(all[i as int] == locations@[i as int]@);
            paths.push(p);
            assert(texts(paths@) =~= texts(before).push(pv));
            assert(short_paths(all).take(i + 1) =~= short_paths(all).take(i as int).push(pv));
            i = i + 1;
        }
        assert(short_paths(all).take(all.len() as int) =~= short_paths(all));
        assert(all.len() == locations@.len());
        return joined(&paths, ", ");
    }
    match fields {
        Some(f) => match extract_tool_metadata(name, f) {
            Some(s) => {
                return s;
            },
            None => {},
        },
        None => {},
    }
    if !is_filled_input(trimmed(raw_input).as_str()) {
        let none = String::new();
        assert(none@ =~= Seq::empty());
        return none;
    }
    truncate_to_line(raw_input, 120)
}

/// The fields of an input that is JSON.
pub open spec fn opt_fields(o: Option<Vec<Field>>) -> Option<Seq<FieldView>> {
    match o {
        Some(v) => Some(field_views(v@)),
        None => None,
    }
}

/// Builds a concise summary of what a tool call is doing.
///
/// Priority:
/// 1. Locations (file paths), shown as shortened paths.
/// 2. Extracted fields from the JSON input (file_path, command, pattern, query, etc.)
/// 3. Truncated raw input as fallback.
pub fn format_tool_summary(name: &str, raw_input: &str, locations: &Vec<String>) -> (r: String)
    ensures
        r@ == summary(
            lowercase(name@),
            raw_input@,
            json_fields(raw_input@),
            texts(locations@),
        ),
{
    let fields = read_fields(raw_input);
    summarize(lower(name).as_str(), raw_input, &fields, locations)
}

/// The text, where there is one, as a list.
pub open spec fn at_most_one(o: Option<Seq<char>>) -> Seq<Seq<char>> {
    match o {
        Some(t) => seq![t],
        None => Seq::empty(),
    }
}

/// The first line of a string field, cut.
pub open spec fn cut_at(f: Seq<FieldView>, key: Seq<char>, max: nat) -> Option<Seq<char>> {
    match string_at(f, key) {
        Some(t) => Some(cut_line(t, max)),
        None => None,
    }
}

/// A path, shortened.
pub open spec fn short_of(o: Option<Seq<char>>) -> Option<Seq<char>> {
    match o {
        Some(t) => Some(short_path(t)),
        None => None,
    }
}

/// What an edit replaces.
pub open spec fn edit_change(f: Seq<FieldView>) -> Option<Seq<char>> {
    match (string_at(f, "old_string"@), string_at(f, "new_string"@)) {
        (Some(a), Some(b)) => Some(
            "\""@ + cut_line(a, 40) + "\" -> \""@ + cut_line(b, 40) + "\""@,
        ),
        _ => None,
    }
}

/// The part of a file that is read.
pub open spec fn read_range(f: Seq<FieldView>) -> Seq<char> {
    let offset = or_field(field(f, "offset"@), field(f, "line"@));
    let limit = field(f, "limit"@);
    match (offset, limit) {
        (None, None) => Seq::empty(),
        (Some(a), None) => " ("@ + ("offset="@ + a.json) + ")"@,
        (None, Some(b)) => " ("@ + ("limit="@ + b.json) + ")"@,
        (Some(a), Some(b)) => " ("@ + ("offset="@ + a.json + ", "@ + "limit="@ + b.json) + ")"@,
    }
}

/// What a search looks for, and where.
pub open spec fn search_detail(f: Seq<FieldView>) -> Option<Seq<char>> {
    match (string_at(f, "pattern"@), string_at(f, "path"@)) {
        (None, None) => None,
        (Some(a), None) => Some("/"@ + a + "/"@),
        (None, Some(b)) => Some("in "@ + short_path(b)),
        (Some(a), Some(b)) => Some("/"@ + a + "/"@ + " "@ + "in "@ + short_path(b)),
    }
}

/// The detail lines of a tool call, by the tool's name in lower case.
pub open spec fn details(name: Seq<char>, f: Seq<FieldView>) -> Seq<Seq<char>> {
    if contains(name, "edit"@) || contains(name, "notebook"@) {
        at_most_one(short_of(string_of(or_field(file_field(f), field(f, "notebook_path"@)))))
            + at_most_one(edit_change(f))
    } else if contains(name, "write"@) {
        at_most_one(short_of(string_of(file_field(f))))
    } else if contains(name, "read"@) {
        match string_of(file_field(f)) {
            Some(t) => seq![short_path(t) + read_range(f)],
            None => Seq::empty(),
        }
    } else if is_shell_tool(name) {
        at_most_one(cut_at(f, "command"@, 100)) + at_most_one(cut_at(f, "description"@, 100))
    } else if is_search_tool(name) {
        at_most_one(search_detail(f))
    } else if is_task_tool(name) {
        at_most_one(cut_at(f, "description"@, 80)) + at_most_one(cut_at(f, "prompt"@, 80))
    } else if is_web_tool(name) {
        at_most_one(cut_at(f, "url"@, 120))
    } else {
        let l = common_labels(f, 6, 100);
        if l.len() > 2 {
            l.take(2)
        } else {
            l
        }
    }
}

/// There are at most two detail lines.
pub proof fn law_at_most_two_details(name: Seq<char>, f: Seq<FieldView>)
    ensures
        details(name, f).len() <= 2,
{
}

/// Adds a text to a list, where there is one.
fn push_opt(lines: &mut Vec<String>, o: Option<String>)
    ensures
        texts(final(lines)@) == texts(old(lines)@) + at_most_one(opt_text(o)),
{
    let ghost before = lines@;
    match o {
        Some(t) => {
            lines.push(t);
            assert(texts(lines@) =~= texts(before) + at_most_one(opt_text(o)));
        },
        None => {
            assert(texts(lines@) =~= texts(before) + at_most_one(opt_text(o)));
        },
    }
}

/// The first line of a string field, cut.
fn cut_string_at(fields: &Vec<Field>, key: &str, max: usize) -> (r: Option<String>)
    ensures
        opt_text(r) == cut_at(field_views(fields@), key@, max as nat),
{
    match find_string(fields, key) {
        Some(t) => Some(truncate_to_line(t, max)),
        None => None,
    }
}

/// A path, shortened.
fn shorten_opt(o: Option<&str>) -> (r: Option<String>)
    ensures
        opt_text(r) == short_of(crate::text::basic::opt_str(o)),
{
    match o {
        Some(t) => Some(shorten_path(t)),
        None => None,
    }
}

/// What an edit replaces.
fn describe_edit(fields: &Vec<Field>) -> (r: Option<String>)
    ensures
        opt_text(r) == edit_change(field_views(fields@)),
{
    match (find_string(fields, "old_string"), find_string(fields, "new_string")) {
        (Some(a), Some(b)) => {
            let mut s = "\"".to_owned();
            s.append(truncate_to_line(a, 40).as_str());
            s.append("\" -> \"");
            s.append(truncate_to_line(b, 40).as_str());
            s.append("\"");
            Some(s)
        },
        _ => None,
    }
}

/// The part of a file that is read.
fn describe_range(fields: &Vec<Field>) -> (r: String)
    ensures
        r@ == read_range(field_views(fields@)),
{
    let offset = match find_field(fields, "offset") {
        Some(x) => Some(x),
        None => find_field(fields, "line"),
    };
    let limit = find_field(fields, "limit");
    if offset.is_none() && limit.is_none() {
        let none = String::new();
        assert(none@ =~= Seq::empty());
        return none;
    }
    let mut inner = String::new();
    match offset {
        Some(a) => {
            inner = "offset=".to_owned();
            inner.append(a.json.as_str());
            match limit {
                Some(b) => {
                    inner.append(", ");
                    inner.append("limit=");
                    inner.append(b.json.as_str());
                },
                None => {},
            }
        },
        None => match limit {
            Some(b) => {
                inner = "limit=".to_owned();
                inner.append(b.json.as_str());
            },
            None => {},
        },
    }
    let mut r = " (".to_owned();
    r.append(inner.as_str());
    r.append(")");
    r
}

/// What a search looks for, and where.
fn describe_search(fields: &Vec<Field>) -> (r: Option<String>)
    ensures
        opt_text(r) == search_detail(field_views(fields@)),
{
    match (find_string(fields, "pattern"), find_string(fields, "path")) {
        (None, None) => None,
        (Some(a), None) => {
            let mut s = "/".to_owned();
            s.append(a);
            s.append("/");
            Some(s)
        },
        (None, Some(b)) => {
            let mut s = "in ".to_owned();
            s.append(shorten_path(b).as_str());
            Some(s)
        },
        (Some(a), Some(b)) => {
            let mut s = "/".to_owned();
            s.append(a);
            s.append("/");
            s.append(" ");
            s.append("in ");
            s.append(shorten_path(b).as_str());
            Some(s)
        },
    }
}

/// Builds the detail lines for a tool call, given the tool's name in lower case
/// and the fields of its input.
pub fn detail_lines(name: &str, fields: &Vec<Field>) -> (r: Vec<String>)
    ensures
        texts(r@) == details(name@, field_views(fields@)),
{
    let mut lines: Vec<String> = Vec::new();
    let ghost f = field_views(fields@);
    assert(texts(lines@) =~= Seq::empty());
    if has(name, "edit") || has(name, "notebook") {
        let path = match find_file(fields) {
            Some(x) => Some(x),
            None => find_field(fields, "notebook_path"),
        };
        push_opt(&mut lines, shorten_opt(string_in(path)));
        push_opt(&mut lines, describe_edit(fields));
        assert(texts(lines@) =~= details(name@, f));
        return lines;
    }
    if has(name, "write") {
        push_opt(&mut lines, shorten_opt(string_in(find_file(fields))));
        assert(texts(lines@) =~= details(name@, f));
        return lines;
    }
    if has(name, "read") {
        match string_in(find_file(fields)) {
            Some(t) => {
                let mut detail = shorten_path(t);
                detail.append(describe_range(fields).as_str());
                push_opt(&mut lines, Some(detail));
            },
            None => {},
        }
        assert(texts(lines@) =~= details(name@, f));
        return lines;
    }
    if shell_tool(name) {
        push_opt(&mut lines, cut_string_at(fields, "command", 100));
        push_opt(&mut lines, cut_string_at(fields, "description", 100));
        assert(texts(lines@) =~= details(name@, f));
        return lines;
    }
    if search_tool(name) {
        push_opt(&mut lines, describe_search(fields));
        assert(texts(lines@) =~= details(name@, f));
        return lines;
    }
    if task_tool(name) {
        push_opt(&mut lines, cut_string_at(fields, "description", 80));
        push_opt(&mut lines, cut_string_at(fields, "prompt", 80));
        assert(texts(lines@) =~= details(name@, f));
        return lines;
    }
    if web_tool(name) {
        push_opt(&mut lines, cut_string_at(fields, "url", 120));
        assert(texts(lines@) =~= details(name@, f));
        return lines;
    }
    let all = list_common(fields, 100);
    let ghost l = texts(all@);
    assert(l.len() == all@.len());
    let mut i: usize = 0;
    assert(texts(lines@) =~= l.take(0));
    while i < all.len() && i < 2
        invariant
            i <= all@.len(),
            i <= 2,
            l == texts(all@),
            texts(lines@) == l.take(i as int),
        decreases all@.len() - i,
    {
        let ghost before = lines@;
        lines.push(all[i].clone());
        assert(texts(lines@) =~= texts(before).push(l[i as int]));
        assert(l.take(i + 1) =~= l.take(i as int).push(l[i as int]));
        i = i + 1;
    }
    assert(l.take(l.len() as int) =~= l);
    lines
}

/// Builds up to 2 detail lines for a tool call based on its name and the fields
/// of its JSON input.
///
/// - **Edit**: file path, then `"old..." -> "new..."` (truncated)
/// - **Write**: file path
/// - **Read**: file path (+ offset/limit if present)
/// - **Bash**: command, then description
/// - **Grep/Glob**: `/pattern/` in path
/// - **Task**: description, then prompt snippet
/// - **WebFetch**: URL
/// - **Generic**: first 2 recognizable fields
pub fn format_tool_detail_lines(name: &str, fields: &Vec<Field>) -> (r: Vec<String>)
    ensures
        texts(r@) == details(lowercase(name@), field_views(fields@)),
{
    detail_lines(lower(name).as_str(), fields)
}

/// The detail lines of a tool call whose input is filled and JSON.
pub open spec fn input_details(name: Seq<char>, input: Seq<char>) -> Seq<Seq<char>> {
    if is_filled(input) {
        match json_fields(input) {
            Some(f) => details(lowercase(name), f),
            None => Seq::empty(),
        }
    } else {
        Seq::empty()
    }
}

/// The detail lines of a tool call, by its input.
pub fn tool_details(name: &str, input: &str) -> (r: Vec<String>)
    ensures
        texts(r@) == input_details(name@, input@),
{
    if is_filled_input(input) {
        match read_fields(input) {
            Some(f) => {
                return format_tool_detail_lines(name, &f);
            },
            None => {},
        }
    }
    let none: Vec<String> = Vec::new();
    assert(texts(none@) =~= Seq::empty());
    none
}

} // verus!
