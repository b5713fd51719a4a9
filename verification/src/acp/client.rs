//! The tool-provider side of an agent connection: permissions, file access, and
//! what is kept of the session.

use vstd::prelude::*;

use crate::acp::streaming::{
    render_session_update, render_step, RenderState, RenderView, SessionUpdateMsg, UpdateView,
};
use crate::acp::summary::{
    details, format_tool_detail_lines, json_fields, read_fields,
};
use crate::output::effect::{effect_views, Effect, EffectView};
use crate::text::basic::{opt_text, same, texts};
use crate::text::case::lowercase;
use crate::text::path::{is_same_path, relative, relative_path, same_path};
use crate::text::search::starts_with;
use crate::text::shape::{join, joined, lines, lines_of};

verus! {

/// The kind of operation that a tool performs.
#[derive(Debug, Clone, Copy, PartialEq, Eq, Structural)]
pub enum ToolKind {
    Read,
    Edit,
    Delete,
    Move,
    Search,
    Execute,
    Think,
    Fetch,
    Other,
}

/// What a permission option stands for.
#[derive(Debug, Clone, Copy, PartialEq, Eq, Structural)]
pub enum OptionKind {
    AllowOnce,
    AllowAlways,
    RejectOnce,
    RejectAlways,
    /// A kind that this version does not know.
    Other,
}

/// An option of a permission request.
#[derive(Debug)]
pub struct PermissionOption {
    pub id: String,
    pub kind: OptionKind,
}

/// The answer to a permission request.
#[derive(Debug, Clone, Copy, PartialEq, Eq, Structural)]
pub enum Permission {
    /// The option at this place was selected.
    Selected(usize),
    /// The request is cancelled.
    Cancelled,
    /// No option allows the request.
    NoAllowOption,
}

/// The tool changes something.
pub open spec fn is_write(kind: ToolKind) -> bool {
    kind == ToolKind::Edit || kind == ToolKind::Delete || kind == ToolKind::Move
}

/// The option turns the request down.
pub open spec fn rejects(k: OptionKind) -> bool {
    k == OptionKind::RejectOnce || k == OptionKind::RejectAlways
}

/// Whether a tool's kind represents a write (mutating) operation.
pub fn is_write_kind(kind: ToolKind) -> (r: bool)
    ensures
        r == is_write(kind),
{
    match kind {
        ToolKind::Edit | ToolKind::Delete | ToolKind::Move => true,
        _ => false,
    }
}

/// The first option that turns the request down.
fn first_reject(options: &Vec<PermissionOption>) -> (r: Option<usize>)
    ensures
        match r {
            Some(i) => i < options@.len() && rejects(options@[i as int].kind) && forall|j: int|
                0 <= j < i ==> !rejects((#[trigger] options@[j]).kind),
            None => forall|j: int|
                0 <= j < options@.len() ==> !rejects((#[trigger] options@[j]).kind),
        },
{
    let mut i: usize = 0;
    while i < options.len()
        invariant
            i <= options@.len(),
            forall|j: int| 0 <= j < i ==> !rejects((#[trigger] options@[j]).kind),
        decreases options@.len() - i,
    {
        if options[i].kind == OptionKind::RejectOnce || options[i].kind
            == OptionKind::RejectAlways {
            return Some(i);
        }
        i = i + 1;
    }
    None
}

/// The first option of a kind.
fn first_of(options: &Vec<PermissionOption>, kind: OptionKind) -> (r: Option<usize>)
    ensures
        match r {
            Some(i) => i < options@.len() && options@[i as int].kind == kind && forall|j: int|
                0 <= j < i ==> (#[trigger] options@[j]).kind != kind,
            None => forall|j: int|
                0 <= j < options@.len() ==> (#[trigger] options@[j]).kind != kind,
        },
{
    let mut i: usize = 0;
    while i < options.len()
        invariant
            i <= options@.len(),
            forall|j: int| 0 <= j < i ==> (#[trigger] options@[j]).kind != kind,
        decreases options@.len() - i,
    {
        if options[i].kind == kind {
            return Some(i);
        }
        i = i + 1;
    }
    None
}

/// `i` is the first place whose option is of the kind.
pub open spec fn is_first(o: Seq<PermissionOption>, i: int, kind: OptionKind) -> bool {
    0 <= i < o.len() && o[i].kind == kind && forall|j: int|
        0 <= j < i ==> (#[trigger] o[j]).kind != kind
}

/// No option is of the kind.
pub open spec fn has_none(o: Seq<PermissionOption>, kind: OptionKind) -> bool {
    forall|j: int| 0 <= j < o.len() ==> (#[trigger] o[j]).kind != kind
}

/// Answers a permission request.
///
/// In read-only mode, tools that write are turned down: with the first option
/// that rejects, or by cancelling. Everything else is approved: with the first
/// option that allows once, or else the first that allows always.
pub fn decide_permission(
    read_only: bool,
    kind: Option<ToolKind>,
    options: &Vec<PermissionOption>,
) -> (r: Permission)
    ensures
        ({
            let denied = read_only && kind is Some && is_write(kind->0);
            match r {
                Permission::Selected(i) => if denied {
                    i < options@.len() && rejects(options@[i as int].kind) && forall|j: int|
                        0 <= j < i ==> !rejects((#[trigger] options@[j]).kind)
                } else {
                    is_first(options@, i as int, OptionKind::AllowOnce) || (has_none(
                        options@,
                        OptionKind::AllowOnce,
                    ) && is_first(options@, i as int, OptionKind::AllowAlways))
                },
                Permission::Cancelled => denied && forall|j: int|
                    0 <= j < options@.len() ==> !rejects((#[trigger] options@[j]).kind),
                Permission::NoAllowOption => !denied && has_none(options@, OptionKind::AllowOnce)
                    && has_none(options@, OptionKind::AllowAlways),
            }
        }),
{
    let denied = read_only && match kind {
        Some(k) => is_write_kind(k),
        None => false,
    };
    if denied {
        return match first_reject(options) {
            Some(i) => Permission::Selected(i),
            None => Permission::Cancelled,
        };
    }
    match first_of(options, OptionKind::AllowOnce) {
        Some(i) => Permission::Selected(i),
        None => match first_of(options, OptionKind::AllowAlways) {
            Some(i) => Permission::Selected(i),
            None => Permission::NoAllowOption,
        },
    }
}

/// The lines from the `offset`-th on, at most `limit`.
pub open spec fn window(p: Seq<Seq<char>>, offset: int, limit: int) -> Seq<Seq<char>> {
    if offset >= p.len() {
        Seq::empty()
    } else if p.len() - offset <= limit {
        p.skip(offset)
    } else {
        p.subrange(offset, offset + limit)
    }
}

/// The part of a file that is asked for: all of it, or the lines from a line
/// number on, which counts from 1, up to a number of lines.
pub open spec fn file_part(content: Seq<char>, line: Option<u32>, limit: Option<u32>) -> Seq<
    char,
> {
    if line is None && limit is None {
        content
    } else {
        let offset = match line {
            Some(l) => if l > 0 {
                l - 1
            } else {
                0
            },
            None => 0int,
        };
        let all = lines(content);
        join(
            window(
                all,
                offset,
                match limit {
                    Some(n) => n as int,
                    None => all.len() as int,
                },
            ),
            "\n"@,
        )
    }
}

/// The part of a file that is asked for.
pub fn read_part(content: String, line: Option<u32>, limit: Option<u32>) -> (r: String)
    ensures
        r@ == file_part(content@, line, limit),
{
    if line.is_none() && limit.is_none() {
        return content;
    }
    let all = lines_of(content.as_str());
    let ghost av = texts(all@);
    let n: usize = all.len();
    assert(av.len() == n);
    let offset: usize = match line {
        Some(l) => if l > 0 {
            (l - 1) as usize
        } else {
            0
        },
        None => 0,
    };
    let from: usize = if offset < n {
        offset
    } else {
        n
    };
    let to: usize = match limit {
        Some(k) => if n - from <= k as usize {
            n
        } else {
            from + k as usize
        },
        None => n,
    };
    let mut part: Vec<String> = Vec::new();
    let mut i: usize = from;
    assert(texts(part@) =~= av.subrange(from as int, i as int));
    while i < to
        invariant
            from <= i <= to <= all@.len(),
            av == texts(all@),
            texts(part@) == av.subrange(from as int, i as int),
        decreases to - i,
    {
        let ghost before = part@;
        assert(av[i as int] == all@[i as int]@);
        part.push(all[i].clone());
        assert(texts(part@) =~= texts(before).push(av[i as int]));
        assert(av.subrange(from as int, i + 1) =~= av.subrange(from as int, i as int).push(
            av[i as int],
        ));
        i = i + 1;
    }
    proof {
        let k = match limit {
            Some(n) => n as int,
            None => av.len() as int,
        };
        assert(av.subrange(from as int, to as int) =~= window(av, offset as int, k));
    }
    joined(&part, "\n")
}

/// A tool call that waits for its input.
#[derive(Debug)]
pub struct PendingToolCall {
    pub id: String,
    pub name: String,
    pub metadata_rendered: bool,
}

/// What a waiting tool call holds.
pub struct PendingView {
    pub id: Seq<char>,
    pub name: Seq<char>,
    pub metadata_rendered: bool,
}

impl View for PendingToolCall {
    type V = PendingView;

    open spec fn view(&self) -> PendingView {
        PendingView {
            id: self.id@,
            name: self.name@,
            metadata_rendered: self.metadata_rendered,
        }
    }
}

/// The views of a list of waiting tool calls.
pub open spec fn pending_views(v: Seq<PendingToolCall>) -> Seq<PendingView> {
    v.map_values(|p: PendingToolCall| p@)
}

/// The place of the call with the id, from `from` on.
pub open spec fn pending_place(s: Seq<PendingView>, id: Seq<char>, from: int) -> Option<int>
    decreases s.len() - from,
{
    if 0 <= from < s.len() {
        if s[from].id == id {
            Some(from)
        } else {
            pending_place(s, id, from + 1)
        }
    } else {
        None
    }
}

/// The calls with one more, which takes the place of one with its id.
pub open spec fn with_pending(s: Seq<PendingView>, p: PendingView) -> Seq<PendingView> {
    match pending_place(s, p.id, 0) {
        Some(i) => s.update(i, p),
        None => s.push(p),
    }
}

/// What the agent tells of a session.
#[derive(Debug)]
pub enum Notification {
    /// A chunk of the agent's message, where it is text.
    MessageChunk(Option<String>),
    /// A chunk of the agent's thoughts, where it is text.
    ThoughtChunk(Option<String>),
    /// A tool call, with its input as JSON where it is known.
    ToolCall { id: String, title: String, raw_input: Option<String>, locations: Vec<String> },
    /// An update of a tool call, with its input as JSON where it is known.
    ToolCallUpdate { id: String, raw_input: Option<String> },
    /// Anything that is not shown.
    Other,
}

/// What a notification says.
pub enum NotificationView {
    MessageChunk(Option<Seq<char>>),
    ThoughtChunk(Option<Seq<char>>),
    ToolCall(Seq<char>, Seq<char>, Option<Seq<char>>, Seq<Seq<char>>),
    ToolCallUpdate(Seq<char>, Option<Seq<char>>),
    Other,
}

impl View for Notification {
    type V = NotificationView;

    open spec fn view(&self) -> NotificationView {
        match self {
            Notification::MessageChunk(t) => NotificationView::MessageChunk(opt_text(*t)),
            Notification::ThoughtChunk(t) => NotificationView::ThoughtChunk(opt_text(*t)),
            Notification::ToolCall { id, title, raw_input, locations } =>
                NotificationView::ToolCall(id@, title@, opt_text(*raw_input), texts(locations@)),
            Notification::ToolCallUpdate { id, raw_input } => NotificationView::ToolCallUpdate(
                id@,
                opt_text(*raw_input),
            ),
            Notification::Other => NotificationView::Other,
        }
    }
}

/// What is kept of an agent session.
#[derive(Debug)]
pub struct RalphClient {
    /// Project root directory; paths are made relative to this.
    pub project_root: String,
    /// Accumulated agent message text for post-session sigil extraction.
    pub text_accumulator: String,
    /// File paths that were written, normalized to be project-relative.
    pub files_modified: Vec<String>,
    /// If `true`, file write requests are rejected.
    pub read_only: bool,
    /// If set, only these paths may be written.
    pub allowed_write_paths: Option<Vec<String>>,
    /// What is shown of the session.
    pub render: RenderState,
    /// Tool calls that wait for their input.
    pub pending_tool_calls: Vec<PendingToolCall>,
}

/// What a client holds.
pub struct ClientView {
    pub project_root: Seq<char>,
    pub text_accumulator: Seq<char>,
    pub files_modified: Seq<Seq<char>>,
    pub read_only: bool,
    pub allowed_write_paths: Option<Seq<Seq<char>>>,
    pub render: RenderView,
    pub pending_tool_calls: Seq<PendingView>,
}

/// The paths that may be written, where they are restricted.
pub open spec fn opt_texts(o: Option<Vec<String>>) -> Option<Seq<Seq<char>>> {
    match o {
        Some(v) => Some(texts(v@)),
        None => None,
    }
}

impl View for RalphClient {
    type V = ClientView;

    open spec fn view(&self) -> ClientView {
        ClientView {
            project_root: self.project_root@,
            text_accumulator: self.text_accumulator@,
            files_modified: texts(self.files_modified@),
            read_only: self.read_only,
            allowed_write_paths: opt_texts(self.allowed_write_paths),
            render: self.render@,
            pending_tool_calls: pending_views(self.pending_tool_calls@),
        }
    }
}

/// The detail lines for an input that arrived late.
pub open spec fn late_details(name: Seq<char>, input: Seq<char>) -> Seq<Seq<char>> {
    match json_fields(input) {
        Some(f) => details(lowercase(name), f),
        None => Seq::empty(),
    }
}

/// A client with an update rendered.
pub open spec fn rendered_client(ui: bool, c: ClientView, u: UpdateView) -> (
    Seq<EffectView>,
    ClientView,
) {
    let r = render_step(ui, u, c.render);
    (r.effects, ClientView { render: r.state, ..c })
}

/// What is shown of a notification, and the client behind it.
pub open spec fn notified(ui: bool, c: ClientView, n: NotificationView) -> (
    Seq<EffectView>,
    ClientView,
) {
    match n {
        NotificationView::MessageChunk(Some(t)) => rendered_client(
            ui,
            ClientView { text_accumulator: c.text_accumulator + t, ..c },
            UpdateView::AgentText(t),
        ),
        NotificationView::ThoughtChunk(Some(t)) => rendered_client(
            ui,
            c,
            UpdateView::AgentThought(t),
        ),
        NotificationView::ToolCall(id, title, raw_input, locations) => {
            let input = match raw_input {
                Some(t) => t,
                None => Seq::empty(),
            };
            rendered_client(
                ui,
                ClientView {
                    pending_tool_calls: with_pending(
                        c.pending_tool_calls,
                        PendingView { id, name: title, metadata_rendered: raw_input is Some },
                    ),
                    ..c
                },
                UpdateView::ToolCall(title, input, locations),
            )
        },
        NotificationView::ToolCallUpdate(id, Some(input)) => match pending_place(
            c.pending_tool_calls,
            id,
            0,
        ) {
            Some(i) => if c.pending_tool_calls[i].metadata_rendered {
                (Seq::empty(), c)
            } else {
                let p = c.pending_tool_calls[i];
                let marked = ClientView {
                    pending_tool_calls: c.pending_tool_calls.update(
                        i,
                        PendingView { metadata_rendered: true, ..p },
                    ),
                    ..c
                };
                let d = late_details(p.name, input);
                if d.len() == 0 {
                    (Seq::empty(), marked)
                } else {
                    rendered_client(ui, marked, UpdateView::ToolCallDetail(d))
                }
            },
            None => (Seq::empty(), c),
        },
        _ => (Seq::empty(), c),
    }
}

/// No notification takes text back: what was accumulated stays in front, and
/// the files that were written stay as they are.
pub proof fn law_text_accumulates(ui: bool, c: ClientView, n: NotificationView)
    ensures
        c.text_accumulator.is_prefix_of(notified(ui, c, n).1.text_accumulator),
        n matches NotificationView::MessageChunk(Some(t)) ==> notified(ui, c, n).1.text_accumulator
            == c.text_accumulator + t,
        notified(ui, c, n).1.files_modified == c.files_modified,
        notified(ui, c, n).1.read_only == c.read_only,
{
    let a = notified(ui, c, n).1.text_accumulator;
    assert(a.subrange(0, c.text_accumulator.len() as int) =~= c.text_accumulator);
}

impl RalphClient {
    /// Creates a new client for a project with an absolute root path.
    pub fn new(project_root: String, read_only: bool, model_name: String) -> (r: Self)
        requires
            starts_with(project_root@, "/"@),
        ensures
            r@ == (ClientView {
                project_root: project_root@,
                text_accumulator: Seq::empty(),
                files_modified: Seq::empty(),
                read_only,
                allowed_write_paths: None,
                render: RenderView {
                    model_name: model_name@,
                    is_first_chunk: true,
                    line_buffer: Seq::empty(),
                    in_code_block: false,
                    in_sigil: None,
                },
                pending_tool_calls: Seq::empty(),
            }),
    {
        let r = RalphClient {
            project_root,
            text_accumulator: String::new(),
            files_modified: Vec::new(),
            read_only,
            allowed_write_paths: None,
            render: RenderState::new(model_name),
            pending_tool_calls: Vec::new(),
        };
        assert(r@.text_accumulator =~= Seq::empty());
        assert(r@.files_modified =~= Seq::empty());
        assert(r@.pending_tool_calls =~= Seq::empty());
        r
    }

    /// Restricts file writes to only the specified paths.
    pub fn with_allowed_write_paths(self, paths: Vec<String>) -> (r: Self)
        ensures
            r@ == (ClientView { allowed_write_paths: Some(texts(paths@)), ..self@ }),
    {
        let mut r = self;
        r.allowed_write_paths = Some(paths);
        r
    }

    /// Takes and returns all accumulated agent text, leaving the accumulator
    /// empty.
    pub fn take_accumulated_text(&mut self) -> (r: String)
        ensures
            r@ == old(self)@.text_accumulator,
            final(self)@ == (ClientView { text_accumulator: Seq::empty(), ..old(self)@ }),
    {
        let mut r = String::new();
        std::mem::swap(&mut r, &mut self.text_accumulator);
        assert(self.text_accumulator@ =~= Seq::empty());
        r
    }

    /// The accumulated agent text, which stays.
    pub fn peek_accumulated_text(&self) -> (r: String)
        ensures
            r@ == self@.text_accumulator,
    {
        self.text_accumulator.clone()
    }

    /// Takes and returns the list of files modified, leaving it empty.
    pub fn take_files_modified(&mut self) -> (r: Vec<String>)
        ensures
            texts(r@) == old(self)@.files_modified,
            final(self)@ == (ClientView { files_modified: Seq::empty(), ..old(self)@ }),
    {
        let mut r: Vec<String> = Vec::new();
        std::mem::swap(&mut r, &mut self.files_modified);
        assert(texts(self.files_modified@) =~= Seq::empty());
        r
    }

    /// The path relative to the project root, where it lies below it.
    pub fn normalize_path(&self, path: &str) -> (r: String)
        ensures
            r@ == relative(path@, self.project_root@),
    {
        relative_path(path, self.project_root.as_str())
    }

    /// Whether the file at `canonical` may be written. `allowed` are the paths
    /// of the allow-list in canonical form. A refusal says why.
    pub fn check_write(&self, canonical: &str, allowed: &Vec<String>) -> (r: Result<(), String>)
        ensures
            self.read_only ==> r is Err && r->Err_0@
                == "write_text_file is not allowed in read-only mode"@,
            !self.read_only ==> ({
                let listed = exists|i: int|
                    0 <= i < allowed@.len() && #[trigger] same_path(
                        canonical@,
                        texts(allowed@)[i],
                    );
                &&& r is Ok <==> self.allowed_write_paths is None || listed
                &&& r is Err ==> r->Err_0@
                    == "write not allowed: this session can only write to "@ + join(
                    self@.allowed_write_paths->0,
                    ", "@,
                )
            }),
    {
        if self.read_only {
            return Err("write_text_file is not allowed in read-only mode".to_owned());
        }
        match &self.allowed_write_paths {
            None => Ok(()),
            Some(names) => {
                let mut i: usize = 0;
                while i < allowed.len()
                    invariant
                        i <= allowed@.len(),
                        !self.read_only,
                        forall|j: int|
                            0 <= j < i ==> !(#[trigger] same_path(
                                canonical@,
                                texts(allowed@)[j],
                            )),
                    decreases allowed@.len() - i,
                {
                    assert(texts(allowed@)[i as int] == allowed@[i as int]@);
                    if is_same_path(canonical, allowed[i].as_str()) {
                        assert(same_path(canonical@, texts(allowed@)[i as int]));
                        return Ok(());
                    }
                    i = i + 1;
                }
                let mut m = "write not allowed: this session can only write to ".to_owned();
                m.append(joined(names, ", ").as_str());
                Err(m)
            },
        }
    }

    /// Records that a file was written.
    pub fn record_write(&mut self, path: &str)
        ensures
            final(self)@ == (ClientView {
                files_modified: old(self)@.files_modified.push(
                    relative(path@, old(self)@.project_root),
                ),
                ..old(self)@
            }),
    {
        let p = self.normalize_path(path);
        let ghost pv = p@;
        let ghost before = self.files_modified@;
        self.files_modified.push(p);
        assert(texts(self.files_modified@) =~= texts(before).push(pv));
    }

    /// The place of the waiting call with the id.
    fn find_pending(&self, id: &str) -> (r: Option<usize>)
        ensures
            match r {
                Some(i) => i < self.pending_tool_calls@.len() && pending_place(
                    self@.pending_tool_calls,
                    id@,
                    0,
                ) == Some(i as int),
                None => pending_place(self@.pending_tool_calls, id@, 0) is None,
            },
    {
        let ghost s = self@.pending_tool_calls;
        let mut i: usize = 0;
        while i < self.pending_tool_calls.len()
            invariant
                i <= self.pending_tool_calls@.len(),
                s == pending_views(self.pending_tool_calls@),
                pending_place(s, id@, 0) == pending_place(s, id@, i as int),
            decreases self.pending_tool_calls@.len() - i,
        {
            assert(s[i as int] == self.pending_tool_calls@[i as int]@);
            if same(self.pending_tool_calls[i].id.as_str(), id) {
                return Some(i);
            }
            i = i + 1;
        }
        None
    }

    /// Registers a waiting call.
    fn put_pending(&mut self, p: PendingToolCall)
        ensures
            final(self)@ == (ClientView {
                pending_tool_calls: with_pending(old(self)@.pending_tool_calls, p@),
                ..old(self)@
            }),
    {
        let ghost before = self.pending_tool_calls@;
        let ghost pv = p@;
        match self.find_pending(p.id.as_str()) {
            Some(i) => {
                self.pending_tool_calls.set(i, p);
                assert(pending_views(self.pending_tool_calls@) =~= pending_views(before).update(
                    i as int,
                    pv,
                ));
            },
            None => {
                self.pending_tool_calls.push(p);
                assert(pending_views(self.pending_tool_calls@) =~= pending_views(before).push(pv));
            },
        }
    }

    /// Handles a session notification: accumulates text, keeps track of tool
    /// calls, and says what is to be shown.
    pub fn session_notification(&mut self, ui: bool, notification: Notification) -> (r: Vec<
        Effect,
    >)
        ensures
            effect_views(r@) == notified(ui, old(self)@, notification@).0,
            final(self)@ == notified(ui, old(self)@, notification@).1,
    {
        let none: Vec<Effect> = Vec::new();
        assert(effect_views(none@) =~= Seq::empty());
        match notification {
            Notification::MessageChunk(Some(text)) => {
                self.text_accumulator.append(text.as_str());
                render_session_update(ui, &SessionUpdateMsg::AgentText(text), &mut self.render)
            },
            Notification::ThoughtChunk(Some(text)) => {
                render_session_update(ui, &SessionUpdateMsg::AgentThought(text), &mut self.render)
            },
            Notification::ToolCall { id, title, raw_input, locations } => {
                let known = raw_input.is_some();
                let input = match raw_input {
                    Some(t) => t,
                    None => {
                        let t = String::new();
                        assert(t@ =~= Seq::empty());
                        t
                    },
                };
                self.put_pending(
                    PendingToolCall { id, name: title.clone(), metadata_rendered: known },
                );
                render_session_update(
                    ui,
                    &SessionUpdateMsg::ToolCall { name: title, input, locations },
                    &mut self.render,
                )
            },
            Notification::ToolCallUpdate { id, raw_input: Some(input) } => {
                match self.find_pending(id.as_str()) {
                    Some(i) => {
                        let ghost before = self.pending_tool_calls@;
                        assert(self@.pending_tool_calls[i as int] == before[i as int]@);
                        if self.pending_tool_calls[i].metadata_rendered {
                            return none;
                        }
                        let name = self.pending_tool_calls[i].name.clone();
                        let marked = PendingToolCall {
                            id: self.pending_tool_calls[i].id.clone(),
                            name: name.clone(),
                            metadata_rendered: true,
                        };
                        let ghost mv = marked@;
                        self.pending_tool_calls.set(i, marked);
                        assert(pending_views(self.pending_tool_calls@) =~= pending_views(
                            before,
                        ).update(i as int, mv));
                        let lines = match read_fields(input.as_str()) {
                            Some(f) => format_tool_detail_lines(name.as_str(), &f),
                            None => {
                                let v: Vec<String> = Vec::new();
                                assert(texts(v@) =~= Seq::empty());
                                v
                            },
                        };
                        assert(texts(lines@).len() == lines@.len());
                        if lines.len() == 0 {
                            return none;
                        }
                        render_session_update(
                            ui,
                            &SessionUpdateMsg::ToolCallDetail { name, detail_lines: lines },
                            &mut self.render,
                        )
                    },
                    None => none,
                }
            },
            _ => none,
        }
    }
}

} // verus!
