//! Loading plugins: which files are read, and which hooks are taken from what
//! they define.
//!
//! A plugin may define a hook under its bare name, such as `on-prompt`, or
//! under the name that only it uses, such as `notes-on-prompt` for a plugin
//! with the stem `notes`. All plugins share one environment. So the loader
//! moves a bare hook to the name with the stem before it loads the next
//! plugin.
use vstd::prelude::*;

use crate::manager::PluginManager;
use crate::order::sort_texts;
use crate::sources::{alias_source, unbind_source};
use crate::text::{chars_of, numeral_text, same_text, string_of};

verus! {

// ---------------------------------------------------------------------
// Files
// ---------------------------------------------------------------------

/// Where the extension of a file name begins: the last dot, unless it is the
/// first character. Zero where there is none.
pub open spec fn last_dot(name: Seq<char>) -> int
    decreases name.len(),
{
    if name.len() == 0 {
        0
    } else if name.last() == '.' {
        name.len() - 1
    } else {
        last_dot(name.drop_last())
    }
}

/// A file name without its extension.
pub open spec fn stem_of(name: Seq<char>) -> Seq<char> {
    if last_dot(name) > 0 {
        name.take(last_dot(name))
    } else {
        name
    }
}

/// Whether a file holds plugin code.
pub open spec fn is_janet(name: Seq<char>) -> bool {
    last_dot(name) > 0 && name.skip(last_dot(name) + 1) == "janet"@
}

/// The names of files with plugin code among `names`, in their order.
pub open spec fn janet_files(names: Seq<Seq<char>>) -> Seq<Seq<char>>
    decreases names.len(),
{
    if names.len() == 0 {
        Seq::empty()
    } else if is_janet(names.last()) {
        janet_files(names.drop_last()).push(names.last())
    } else {
        janet_files(names.drop_last())
    }
}

/// Whether a name ends in `.janet` behind at least one character.
pub open spec fn ends_in_janet(name: Seq<char>) -> bool {
    name.len() > 6 && name.skip(name.len() - 6) == ".janet"@
}

/// What is read for one plugin, in order.
#[derive(Debug, PartialEq, Eq)]
pub struct LoadPlan {
    /// The name of the plugin.
    pub stem: String,
    pub files: Vec<String>,
}

/// The error for a directory without plugin code.
pub open spec fn no_files_text(dir: Seq<char>) -> Seq<char> {
    "plugin directory "@ + dir + " has no .janet files"@
}

/// The error for a file that could not be read.
pub open spec fn read_failure_text(path: Seq<char>, cause: Seq<char>) -> Seq<char> {
    "Failed to read plugin "@ + path + ": "@ + cause
}

fn dot_place(chars: &Vec<char>) -> (at: usize)
    ensures
        at == last_dot(chars@),
        at <= chars@.len(),
        at > 0 ==> at < chars@.len(),
{
    let mut i: usize = chars.len();
    assert(chars@.take(i as int) =~= chars@);
    while i > 0
        invariant
            i <= chars@.len(),
            last_dot(chars@) == last_dot(chars@.take(i as int)),
        decreases i,
    {
        assert(chars@.take(i as int).last() == chars@[i - 1]);
        assert(chars@.take(i as int).drop_last() =~= chars@.take(i - 1));
        if chars[i - 1] == '.' {
            return i - 1;
        }
        i = i - 1;
    }
    0
}

/// The file name without its extension.
pub fn file_stem(name: &str) -> (out: String)
    ensures
        out@ == stem_of(name@),
{
    let chars = chars_of(name);
    let at: usize = dot_place(&chars);
    if at > 0 {
        assert(chars@.subrange(0, at as int) =~= chars@.take(at as int));
        string_of(&chars, 0, at)
    } else {
        name.to_owned()
    }
}

/// Whether a file holds plugin code.
pub fn is_janet_file(name: &str) -> (yes: bool)
    ensures
        yes == is_janet(name@),
{
    let chars = chars_of(name);
    let at: usize = dot_place(&chars);
    if at > 0 {
        let end: usize = chars.len();
        let extension = string_of(&chars, at + 1, end);
        assert(extension@ =~= chars@.skip(at + 1));
        same_text(extension.as_str(), "janet")
    } else {
        false
    }
}

fn keep_janet_files(names: &Vec<String>) -> (out: Vec<String>)
    ensures
        out.deep_view() == janet_files(names.deep_view()),
{
    let ghost all = names.deep_view();
    let mut out: Vec<String> = Vec::new();
    let mut i: usize = 0;
    assert(all.take(0) =~= Seq::empty());
    assert(out.deep_view() =~= janet_files(all.take(0)));
    while i < names.len()
        invariant
            i <= names@.len(),
            all == names.deep_view(),
            out.deep_view() == janet_files(all.take(i as int)),
        decreases names@.len() - i,
    {
        assert(all.take(i + 1).drop_last() =~= all.take(i as int));
        assert(all.take(i + 1).last() == names@[i as int]@);
        let ghost before = out.deep_view();
        if is_janet_file(names[i].as_str()) {
            out.push(names[i].clone());
            assert(out.deep_view() =~= before.push(names@[i as int]@));
        }
        i = i + 1;
    }
    assert(all.take(i as int) =~= all);
    out
}

/// A plugin that is one file: its stem is that of the file.
pub fn plan_file(name: &str) -> (plan: LoadPlan)
    ensures
        plan.stem@ == stem_of(name@),
        plan.files.deep_view() == seq![name@],
{
    let mut files: Vec<String> = Vec::new();
    files.push(name.to_owned());
    assert(files.deep_view() =~= seq![name@]);
    LoadPlan { stem: file_stem(name), files }
}

/// A plugin that is a directory: its stem is the name of the directory, and
/// its files are read in alphabetical order. A directory without plugin code
/// is an error.
pub fn plan_directory(dir: &str, names: &Vec<String>) -> (out: Result<LoadPlan, String>)
    ensures
        out is Ok <==> janet_files(names.deep_view()).len() > 0,
        out matches Ok(plan) ==> {
            &&& plan.stem@ == dir@
            &&& crate::order::sorted(plan.files.deep_view())
            &&& plan.files.deep_view().to_multiset() == janet_files(
                names.deep_view(),
            ).to_multiset()
            &&& plan.files.deep_view().to_multiset() == names.deep_view().filter(
                |name: Seq<char>| ends_in_janet(name),
            ).to_multiset()
        },
        out matches Err(msg) ==> msg@ == no_files_text(dir@),
{
    proof {
        lemma_every_janet_file_is_kept(names.deep_view());
    }
    let found = keep_janet_files(names);
    if found.len() == 0 {
        let mut msg = "plugin directory ".to_owned();
        msg.append(dir);
        msg.append(" has no .janet files");
        Err(msg)
    } else {
        Ok(LoadPlan { stem: dir.to_owned(), files: sort_texts(&found) })
    }
}

/// The error for a file that could not be read.
pub fn read_failure(path: &str, cause: &str) -> (out: String)
    ensures
        out@ == read_failure_text(path@, cause@),
{
    let mut out = "Failed to read plugin ".to_owned();
    out.append(path);
    out.append(": ");
    out.append(cause);
    out
}

/// The paths whose flag is set, in their order.
pub open spec fn flagged(paths: Seq<Seq<char>>, flags: Seq<bool>) -> Seq<Seq<char>>
    decreases paths.len(),
{
    if paths.len() == 0 {
        Seq::empty()
    } else if flags[paths.len() - 1] {
        flagged(paths.drop_last(), flags).push(paths.last())
    } else {
        flagged(paths.drop_last(), flags)
    }
}

/// Keeps the directories that exist, given for each whether it does.
pub fn filter_existing_dirs(paths: &Vec<String>, exists: &Vec<bool>) -> (out: Vec<String>)
    requires
        paths@.len() == exists@.len(),
    ensures
        out.deep_view() == flagged(paths.deep_view(), exists@),
{
    let ghost all = paths.deep_view();
    let mut out: Vec<String> = Vec::new();
    let mut i: usize = 0;
    assert(all.take(0) =~= Seq::empty());
    assert(out.deep_view() =~= flagged(all.take(0), exists@));
    while i < paths.len()
        invariant
            i <= paths@.len(),
            paths@.len() == exists@.len(),
            all == paths.deep_view(),
            out.deep_view() == flagged(all.take(i as int), exists@),
        decreases paths@.len() - i,
    {
        assert(all.take(i + 1).drop_last() =~= all.take(i as int));
        assert(all.take(i + 1).last() == paths@[i as int]@);
        let ghost before = out.deep_view();
        if exists[i] {
            out.push(paths[i].clone());
            assert(out.deep_view() =~= before.push(paths@[i as int]@));
        }
        i = i + 1;
    }
    assert(all.take(i as int) =~= all);
    out
}

// ---------------------------------------------------------------------
// Evaluating the files
// ---------------------------------------------------------------------

/// The files of a plugin, while they are evaluated one after the other.
#[derive(Debug)]
pub struct LoadRun {
    plan: LoadPlan,
    /// How many files were evaluated.
    next: usize,
    /// The error that ended the load.
    failure: Option<String>,
}

/// The mathematical form of a [`LoadRun`].
pub struct LoadRunView {
    pub stem: Seq<char>,
    pub files: Seq<Seq<char>>,
    pub next: int,
    pub failure: Option<Seq<char>>,
}

impl View for LoadRun {
    type V = LoadRunView;

    closed spec fn view(&self) -> LoadRunView {
        LoadRunView {
            stem: self.plan.stem@,
            files: self.plan.files.deep_view(),
            next: self.next as int,
            failure: self.failure.deep_view(),
        }
    }
}

/// A load at its start.
pub open spec fn load_begun(stem: Seq<char>, files: Seq<Seq<char>>) -> LoadRunView {
    LoadRunView { stem, files, next: 0, failure: None }
}

/// The file to evaluate next: none once all were evaluated, or one has failed.
pub open spec fn file_due(run: LoadRunView) -> Option<Seq<char>> {
    if run.failure is None && 0 <= run.next < run.files.len() {
        Some(run.files[run.next])
    } else {
        None
    }
}

/// The load after the file that was due was evaluated, or has failed with an
/// error.
pub open spec fn file_done(run: LoadRunView, error: Option<Seq<char>>) -> LoadRunView {
    if file_due(run) is None {
        run
    } else if error is Some {
        LoadRunView { failure: error, ..run }
    } else {
        LoadRunView { next: run.next + 1, ..run }
    }
}

/// The error of an outcome.
pub open spec fn error_in(outcome: Result<(), String>) -> Option<Seq<char>> {
    match outcome {
        Ok(_) => None,
        Err(msg) => Some(msg@),
    }
}

impl LoadRun {
    /// No more files were evaluated than there are.
    #[verifier::type_invariant]
    spec fn within(self) -> bool {
        self.next <= self.plan.files@.len()
    }

    /// Starts to evaluate the files of a plugin.
    pub fn begin(plan: LoadPlan) -> (run: LoadRun)
        ensures
            run@ == load_begun(plan.stem@, plan.files.deep_view()),
    {
        LoadRun { plan, next: 0, failure: None }
    }

    /// The file to evaluate next.
    pub fn next_file(&self) -> (file: Option<String>)
        ensures
            file.deep_view() == file_due(self@),
    {
        if self.failure.is_none() && self.next < self.plan.files.len() {
            assert(self@.files[self.next as int] == self.plan.files@[self.next as int]@);
            Some(self.plan.files[self.next].clone())
        } else {
            None
        }
    }

    /// Takes how the evaluation of the file that was due went. A file that
    /// fails ends the load.
    pub fn finish_file(&mut self, outcome: Result<(), String>)
        ensures
            final(self)@ == file_done(old(self)@, error_in(outcome)),
    {
        if self.failure.is_none() && self.next < self.plan.files.len() {
            match outcome {
                Ok(_) => {
                    self.next = self.next + 1;
                },
                Err(msg) => {
                    self.failure = Some(msg);
                },
            }
        }
    }

    /// The plan of a load whose files were all evaluated, or the error that
    /// ended the load.
    pub fn finish(self) -> (out: Result<LoadPlan, String>)
        requires
            file_due(self@) is None,
        ensures
            match self@.failure {
                Some(msg) => out matches Err(text) && text@ == msg,
                None => out matches Ok(plan) && plan.stem@ == self@.stem && plan.files.deep_view()
                    == self@.files && self@.next == self@.files.len(),
            },
    {
        proof {
            use_type_invariant(&self);
        }
        match self.failure {
            Some(msg) => Err(msg),
            None => Ok(self.plan),
        }
    }
}

/// A load after some more outcomes.
pub open spec fn load_after(run: LoadRunView, outcomes: Seq<Option<Seq<char>>>) -> LoadRunView
    decreases outcomes.len(),
{
    if outcomes.len() == 0 {
        run
    } else {
        file_done(load_after(run, outcomes.drop_last()), outcomes.last())
    }
}

/// The files are evaluated in their order, and a load in which all were
/// evaluated has no error.
pub proof fn lemma_files_are_evaluated_in_order(
    stem: Seq<char>,
    files: Seq<Seq<char>>,
    outcomes: Seq<Option<Seq<char>>>,
)
    requires
        outcomes.len() <= files.len(),
        forall|i: int| 0 <= i < outcomes.len() ==> #[trigger] outcomes[i] is None,
    ensures
        load_after(load_begun(stem, files), outcomes) == (LoadRunView {
            next: outcomes.len() as int,
            ..load_begun(stem, files)
        }),
        file_due(load_after(load_begun(stem, files), outcomes)) == (if outcomes.len()
            < files.len() {
            Some(files[outcomes.len() as int])
        } else {
            None
        }),
    decreases outcomes.len(),
{
    if outcomes.len() > 0 {
        let shorter = outcomes.drop_last();
        assert forall|i: int| 0 <= i < shorter.len() implies #[trigger] shorter[i] is None by {
            assert(outcomes[i] is None);
        }
        lemma_files_are_evaluated_in_order(stem, files, shorter);
        assert(outcomes[outcomes.len() - 1] is None);
    }
}

/// The first file that fails ends the load: no file is due behind it, and its
/// error stays, whatever comes after.
pub proof fn lemma_failed_file_ends_the_load(
    run: LoadRunView,
    msg: Seq<char>,
    later: Seq<Option<Seq<char>>>,
)
    requires
        file_due(run) is Some,
    ensures
        ({
            let failed = file_done(run, Some(msg));
            &&& file_due(failed) is None
            &&& failed.failure == Some(msg)
            &&& load_after(failed, later) == failed
        }),
    decreases later.len(),
{
    if later.len() > 0 {
        lemma_failed_file_ends_the_load(run, msg, later.drop_last());
    }
}

/// A load that came to its end without an error has evaluated every file, each
/// without an error.
pub proof fn lemma_load_without_error_is_whole(
    stem: Seq<char>,
    files: Seq<Seq<char>>,
    outcomes: Seq<Option<Seq<char>>>,
)
    requires
        file_due(load_after(load_begun(stem, files), outcomes)) is None,
        load_after(load_begun(stem, files), outcomes).failure is None,
    ensures
        outcomes.len() >= files.len(),
        forall|i: int| 0 <= i < files.len() ==> #[trigger] outcomes[i] is None,
{
    lemma_load_counts(stem, files, outcomes);
}

proof fn lemma_load_counts(
    stem: Seq<char>,
    files: Seq<Seq<char>>,
    outcomes: Seq<Option<Seq<char>>>,
)
    ensures
        ({
            let run = load_after(load_begun(stem, files), outcomes);
            &&& run.stem == stem
            &&& run.files == files
            &&& 0 <= run.next <= files.len()
            &&& run.next <= outcomes.len()
            &&& run.failure is None && run.next < files.len() ==> run.next == outcomes.len()
            &&& forall|i: int| 0 <= i < run.next ==> #[trigger] outcomes[i] is None
        }),
    decreases outcomes.len(),
{
    if outcomes.len() > 0 {
        let shorter = outcomes.drop_last();
        lemma_load_counts(stem, files, shorter);
        let before = load_after(load_begun(stem, files), shorter);
        let run = load_after(load_begun(stem, files), outcomes);
        assert forall|i: int| 0 <= i < run.next implies #[trigger] outcomes[i] is None by {
            if i < before.next {
                assert(shorter[i] is None);
            }
        }
    }
}

// ---------------------------------------------------------------------
// Hooks
// ---------------------------------------------------------------------

/// The hooks that a plugin may define.
pub open spec fn known_hooks() -> Seq<Seq<char>> {
    seq![
        "on-init"@,
        "on-prompt"@,
        "on-response"@,
        "on-tool-start"@,
        "on-tool-end"@,
        "on-error"@,
        "on-complete"@,
        "before-agent-start"@,
        "on-turn-start"@,
        "on-message-update"@,
        "prepare-next-run"@,
    ]
}

/// The hooks that a plugin may define.
pub fn known_hook_list() -> (out: Vec<String>)
    ensures
        out.deep_view() == known_hooks(),
{
    let mut out: Vec<String> = Vec::new();
    out.push("on-init".to_owned());
    out.push("on-prompt".to_owned());
    out.push("on-response".to_owned());
    out.push("on-tool-start".to_owned());
    out.push("on-tool-end".to_owned());
    out.push("on-error".to_owned());
    out.push("on-complete".to_owned());
    out.push("before-agent-start".to_owned());
    out.push("on-turn-start".to_owned());
    out.push("on-message-update".to_owned());
    out.push("prepare-next-run".to_owned());
    assert(out.deep_view() =~= known_hooks());
    out
}

/// The name of a hook that only one plugin uses.
pub open spec fn handler_name(stem: Seq<char>, hook: Seq<char>) -> Seq<char> {
    stem + "-"@ + hook
}

/// The name of a hook that only one plugin uses.
pub fn prefixed_hook(stem: &str, hook: &str) -> (out: String)
    ensures
        out@ == handler_name(stem@, hook@),
{
    let mut out = stem.to_owned();
    out.append("-");
    out.append(hook);
    out
}

/// The names that decide what a plugin defines: every hook under its bare name
/// and with the stem.
pub open spec fn probes(hooks: Seq<Seq<char>>, stem: Seq<char>) -> Seq<Seq<char>>
    decreases hooks.len(),
{
    if hooks.len() == 0 {
        Seq::empty()
    } else {
        probes(hooks.drop_last(), stem).push(hooks.last()).push(handler_name(stem, hooks.last()))
    }
}

/// The names of which the host asks whether they are bound.
pub fn probe_names(stem: &str) -> (out: Vec<String>)
    ensures
        out.deep_view() == probes(known_hooks(), stem@),
{
    let known = known_hook_list();
    let ghost all = known.deep_view();
    let mut out: Vec<String> = Vec::new();
    let mut i: usize = 0;
    assert(all.take(0) =~= Seq::empty());
    assert(out.deep_view() =~= probes(all.take(0), stem@));
    while i < known.len()
        invariant
            i <= known@.len(),
            all == known.deep_view(),
            out.deep_view() == probes(all.take(i as int), stem@),
        decreases known@.len() - i,
    {
        let hook = known[i].as_str();
        assert(all.take(i + 1).drop_last() =~= all.take(i as int));
        assert(all.take(i + 1).last() == hook@);
        let ghost before = out.deep_view();
        out.push(hook.to_owned());
        out.push(prefixed_hook(stem, hook));
        assert(out.deep_view() =~= before.push(hook@).push(handler_name(stem@, hook@)));
        i = i + 1;
    }
    assert(all.take(i as int) =~= all);
    out
}

/// Whether a plugin defines a hook, under either name, where `bound` holds the
/// names that are bound once its files were evaluated.
pub open spec fn defines(bound: Seq<Seq<char>>, stem: Seq<char>, hook: Seq<char>) -> bool {
    bound.contains(hook) || bound.contains(handler_name(stem, hook))
}

/// The hooks among `hooks` that a plugin defines, in their order.
pub open spec fn discovered(
    hooks: Seq<Seq<char>>,
    bound: Seq<Seq<char>>,
    stem: Seq<char>,
) -> Seq<Seq<char>>
    decreases hooks.len(),
{
    if hooks.len() == 0 {
        Seq::empty()
    } else if defines(bound, stem, hooks.last()) {
        discovered(hooks.drop_last(), bound, stem).push(hooks.last())
    } else {
        discovered(hooks.drop_last(), bound, stem)
    }
}

/// The table after the hooks of a plugin were registered under the names that
/// only it uses.
pub open spec fn table_loaded(
    table: Seq<crate::hooks::HookEntryView>,
    stem: Seq<char>,
    hooks: Seq<Seq<char>>,
) -> Seq<crate::hooks::HookEntryView>
    decreases hooks.len(),
{
    if hooks.len() == 0 {
        table
    } else {
        crate::hooks::registered(
            table_loaded(table, stem, hooks.drop_last()),
            hooks.last(),
            handler_name(stem, hooks.last()),
        )
    }
}

/// A manager after the load of a plugin, where `bound` holds the names that are
/// bound once its files were evaluated: its hooks are registered, and nothing
/// else changes.
pub open spec fn plugin_loaded(
    mgr: crate::manager::ManagerView,
    stem: Seq<char>,
    bound: Seq<Seq<char>>,
) -> crate::manager::ManagerView {
    crate::manager::ManagerView {
        hooks: table_loaded(mgr.hooks, stem, discovered(known_hooks(), bound, stem)),
        ..mgr
    }
}

/// A change to what the names in an environment are bound to.
pub enum Step {
    /// Binds `alias` to what `name` is bound to.
    Alias { alias: Seq<char>, name: Seq<char> },
    /// Removes the binding of `name`.
    Unbind { name: Seq<char> },
}

/// The source of a step.
pub open spec fn step_form(step: Step) -> Seq<char> {
    match step {
        Step::Alias { alias, name } => crate::sources::alias_form(alias, name),
        Step::Unbind { name } => crate::sources::unbind_form(name),
    }
}

/// The steps that move the bare hooks among `hooks` out of the way: each is
/// bound to the name with the stem, and its bare name is unbound.
pub open spec fn move_steps(
    hooks: Seq<Seq<char>>,
    bound: Seq<Seq<char>>,
    stem: Seq<char>,
) -> Seq<Step>
    decreases hooks.len(),
{
    if hooks.len() == 0 {
        Seq::empty()
    } else if bound.contains(hooks.last()) {
        let hook = hooks.last();
        move_steps(hooks.drop_last(), bound, stem).push(
            Step::Alias { alias: handler_name(stem, hook), name: hook },
        ).push(Step::Unbind { name: hook })
    } else {
        move_steps(hooks.drop_last(), bound, stem)
    }
}

/// The source that moves the bare hooks among `hooks` out of the way, one text
/// for each step.
pub open spec fn moves(
    hooks: Seq<Seq<char>>,
    bound: Seq<Seq<char>>,
    stem: Seq<char>,
) -> Seq<Seq<char>> {
    move_steps(hooks, bound, stem).map_values(|step: Step| step_form(step))
}

/// A plugin that was loaded.
#[derive(Debug, PartialEq, Eq)]
pub struct LoadedPlugin {
    pub stem: String,
    pub files: Vec<String>,
    /// The hooks that it listens to.
    pub hooks_registered: Vec<String>,
    /// The source that is still to be evaluated, in order.
    pub sources: Vec<String>,
}

/// Whether a text occurs among others.
pub fn contains_text(texts: &Vec<String>, text: &str) -> (yes: bool)
    ensures
        yes == texts.deep_view().contains(text@),
{
    let mut i: usize = 0;
    while i < texts.len()
        invariant
            i <= texts@.len(),
            forall|j: int| 0 <= j < i ==> #[trigger] texts.deep_view()[j] != text@,
        decreases texts@.len() - i,
    {
        assert(texts.deep_view()[i as int] == texts@[i as int]@);
        if same_text(texts[i].as_str(), text) {
            return true;
        }
        i = i + 1;
    }
    false
}

impl PluginManager {
    /// Ends the load of a plugin whose files were evaluated, given which of
    /// the hooks are bound, under their bare names or with the stem: registers
    /// the hooks that the plugin defines, and gives the source that moves the
    /// bare ones.
    pub fn finish_load(&mut self, plan: LoadPlan, bound: &Vec<String>) -> (out: LoadedPlugin)
        ensures
            out.stem@ == plan.stem@,
            out.files.deep_view() == plan.files.deep_view(),
            out.hooks_registered.deep_view() == discovered(
                known_hooks(),
                bound.deep_view(),
                plan.stem@,
            ),
            out.sources.deep_view() == moves(known_hooks(), bound.deep_view(), plan.stem@),
            final(self)@ == plugin_loaded(old(self)@, plan.stem@, bound.deep_view()),
            crate::hooks::wf(old(self)@.hooks) ==> crate::hooks::wf(final(self)@.hooks),
    {
        let known = known_hook_list();
        let ghost names = bound.deep_view();
        let ghost all = known.deep_view();
        let ghost stem = plan.stem@;
        let ghost start = self@;
        let mut found: Vec<String> = Vec::new();
        let mut sources: Vec<String> = Vec::new();
        let mut i: usize = 0;
        assert(all.take(0) =~= Seq::empty());
        assert(found.deep_view() =~= discovered(all.take(0), names, stem));
        assert(sources.deep_view() =~= moves(all.take(0), names, stem));
        while i < known.len()
            invariant
                i <= known@.len(),
                all == known.deep_view(),
                all == known_hooks(),
                names == bound.deep_view(),
                stem == plan.stem@,
                found.deep_view() == discovered(all.take(i as int), names, stem),
                sources.deep_view() == moves(all.take(i as int), names, stem),
                self@ == (crate::manager::ManagerView {
                    hooks: table_loaded(start.hooks, stem, found.deep_view()),
                    ..start
                }),
                crate::hooks::wf(start.hooks) ==> crate::hooks::wf(self@.hooks),
            decreases known@.len() - i,
        {
            let hook = known[i].as_str();
            let handler = prefixed_hook(plan.stem.as_str(), hook);
            let bare = contains_text(bound, hook);
            assert(all.take(i + 1).drop_last() =~= all.take(i as int));
            assert(all.take(i + 1).last() == hook@);
            let ghost found_before = found.deep_view();
            let ghost sources_before = sources.deep_view();
            if bare {
                sources.push(alias_source(handler.as_str(), hook));
                sources.push(unbind_source(hook));
                proof {
                    let alias = Step::Alias { alias: handler@, name: hook@ };
                    let unbind = Step::Unbind { name: hook@ };
                    assert(move_steps(all.take(i + 1), names, stem) == move_steps(
                        all.take(i as int),
                        names,
                        stem,
                    ).push(alias).push(unbind));
                    let after = sources_before.push(step_form(alias)).push(step_form(unbind));
                    assert(sources.deep_view() =~= after);
                    assert(moves(all.take(i + 1), names, stem) =~= after);
                }
            }
            if bare || contains_text(bound, handler.as_str()) {
                self.register(hook, handler.as_str());
                found.push(hook.to_owned());
                assert(found.deep_view() =~= found_before.push(hook@));
                assert(found.deep_view().drop_last() =~= found_before);
            }
            i = i + 1;
        }
        assert(all.take(i as int) =~= all);
        LoadedPlugin { stem: plan.stem, files: plan.files, hooks_registered: found, sources }
    }
}

/// Starts a manager of its own for the notebook plugin, and plans the load of
/// its directory, which holds at least three files.
pub fn load_notebook_plugin(started: Result<u64, String>, names: &Vec<String>) -> (out: (
    PluginManager,
    LoadPlan,
))
    requires
        started is Ok,
        janet_files(names.deep_view()).len() >= 3,
    ensures
        out.0@ == crate::manager::ManagerView::fresh(started->Ok_0),
        crate::hooks::wf(out.0@.hooks),
        out.1.stem@ == "notebook"@,
        crate::order::sorted(out.1.files.deep_view()),
        out.1.files.deep_view().to_multiset() == janet_files(names.deep_view()).to_multiset(),
        out.1.files@.len() >= 3,
{
    let mgr = PluginManager::try_new(started);
    let plan = plan_directory("notebook", names);
    proof {
        broadcast use vstd::seq_lib::group_to_multiset_ensures;

        let files = plan->Ok_0.files.deep_view();
        assert(files.len() == files.to_multiset().len());
        assert(janet_files(names.deep_view()).len() == janet_files(
            names.deep_view(),
        ).to_multiset().len());
    }
    (mgr.unwrap(), plan.unwrap())
}

/// Ends the load of the notebook plugin, given how the evaluation of its files
/// went: the names that are bound then, or the error. The manager comes back
/// with the whole plugin loaded, or not at all.
pub fn finish_notebook_load(
    mgr: PluginManager,
    plan: LoadPlan,
    evaluated: Result<Vec<String>, String>,
) -> (out: Result<(PluginManager, LoadedPlugin), String>)
    requires
        plan.files@.len() >= 3,
    ensures
        out is Ok <==> evaluated is Ok,
        evaluated matches Ok(bound) ==> out matches Ok(done) && {
            let found = discovered(known_hooks(), bound.deep_view(), plan.stem@);
            &&& done.0@ == plugin_loaded(mgr@, plan.stem@, bound.deep_view())
            &&& crate::hooks::wf(mgr@.hooks) ==> crate::hooks::wf(done.0@.hooks)
            &&& done.1.stem@ == plan.stem@
            &&& done.1.files.deep_view() == plan.files.deep_view()
            &&& done.1.hooks_registered.deep_view() == found
            &&& done.1.sources.deep_view() == moves(known_hooks(), bound.deep_view(), plan.stem@)
        },
        evaluated matches Err(msg) ==> out matches Err(text) && text@ == msg@,
{
    match evaluated {
        Ok(bound) => {
            let mut loaded_mgr = mgr;
            let loaded = loaded_mgr.finish_load(plan, &bound);
            Ok((loaded_mgr, loaded))
        },
        Err(msg) => Err(msg),
    }
}

/// Ends the load of the notebook plugin, given how its files went: the names in
/// `bound` are those that were bound once they were evaluated, and count only
/// where no file has failed.
pub fn finish_notebook_run(mgr: PluginManager, run: LoadRun, bound: Vec<String>) -> (out: Result<
    (PluginManager, LoadedPlugin),
    String,
>)
    requires
        file_due(run@) is None,
        run@.files.len() >= 3,
    ensures
        out is Err <==> run@.failure is Some,
        run@.failure matches Some(msg) ==> out matches Err(text) && text@ == msg,
        out is Ok ==> run@.next == run@.files.len(),
        out matches Ok(done) ==> {
            let found = discovered(known_hooks(), bound.deep_view(), run@.stem);
            &&& done.0@ == plugin_loaded(mgr@, run@.stem, bound.deep_view())
            &&& crate::hooks::wf(mgr@.hooks) ==> crate::hooks::wf(done.0@.hooks)
            &&& done.1.stem@ == run@.stem
            &&& done.1.files.deep_view() == run@.files
            &&& done.1.hooks_registered.deep_view() == found
            &&& done.1.sources.deep_view() == moves(known_hooks(), bound.deep_view(), run@.stem)
        },
{
    match run.finish() {
        Ok(plan) => {
            assert(plan.files@.len() == plan.files.deep_view().len());
            finish_notebook_load(mgr, plan, Ok(bound))
        },
        Err(msg) => Err(msg),
    }
}

/// The name of the file of a plugin that is written to try a load.
pub open spec fn loadtest_form(pid: nat, label: Seq<char>) -> Seq<char> {
    "dirge-plugin-loadtest-"@ + crate::text::numeral(pid, 10) + "-"@ + label + ".janet"@
}

/// The name of the file of a plugin that is written to try a load.
pub fn loadtest_name(pid: u64, label: &str) -> (out: String)
    ensures
        out@ == loadtest_form(pid as nat, label@),
{
    let mut out = "dirge-plugin-loadtest-".to_owned();
    out.append(numeral_text(pid, 10).as_str());
    out.append("-");
    out.append(label);
    out.append(".janet");
    out
}

// ---------------------------------------------------------------------
// Laws
// ---------------------------------------------------------------------

proof fn lemma_known(hook: Seq<char>)
    requires
        known_hooks().contains(hook),
    ensures
        hook == "on-init"@ || hook == "on-prompt"@ || hook == "on-response"@ || hook
            == "on-tool-start"@ || hook == "on-tool-end"@ || hook == "on-error"@ || hook
            == "on-complete"@ || hook == "before-agent-start"@ || hook == "on-turn-start"@ || hook
            == "on-message-update"@ || hook == "prepare-next-run"@,
{
    let i = choose|i: int| 0 <= i < known_hooks().len() && known_hooks()[i] == hook;
    assert(known_hooks().len() == 11);
}

proof fn lemma_known_start(hook: Seq<char>)
    requires
        known_hooks().contains(hook),
    ensures
        hook.len() > 0,
        hook[0] == 'o' || hook[0] == 'b' || (hook[0] == 'p' && hook.len() == 16),
{
    lemma_known(hook);
    reveal_strlit("on-init");
    reveal_strlit("on-prompt");
    reveal_strlit("on-response");
    reveal_strlit("on-tool-start");
    reveal_strlit("on-tool-end");
    reveal_strlit("on-error");
    reveal_strlit("on-complete");
    reveal_strlit("before-agent-start");
    reveal_strlit("on-turn-start");
    reveal_strlit("on-message-update");
    reveal_strlit("prepare-next-run");
}

proof fn lemma_known_inside(hook: Seq<char>, p: int)
    requires
        known_hooks().contains(hook),
        0 < p < hook.len(),
        hook[p - 1] == '-',
    ensures
        hook[p] != 'o',
        hook[p] != 'b',
        hook[p] == 'p' ==> hook.len() - p != 16,
{
    lemma_known(hook);
    if hook == "on-init"@ {
        reveal_strlit("on-init");
    } else if hook == "on-prompt"@ {
        reveal_strlit("on-prompt");
    } else if hook == "on-response"@ {
        reveal_strlit("on-response");
    } else if hook == "on-tool-start"@ {
        reveal_strlit("on-tool-start");
    } else if hook == "on-tool-end"@ {
        reveal_strlit("on-tool-end");
    } else if hook == "on-error"@ {
        reveal_strlit("on-error");
    } else if hook == "on-complete"@ {
        reveal_strlit("on-complete");
    } else if hook == "before-agent-start"@ {
        reveal_strlit("before-agent-start");
    } else if hook == "on-turn-start"@ {
        reveal_strlit("on-turn-start");
    } else if hook == "on-message-update"@ {
        reveal_strlit("on-message-update");
    } else {
        reveal_strlit("prepare-next-run");
    }
}

/// A name with a stem is never the bare name of a hook.
pub proof fn lemma_handler_name_is_not_bare(stem: Seq<char>, hook: Seq<char>, bare: Seq<char>)
    requires
        known_hooks().contains(hook),
        known_hooks().contains(bare),
    ensures
        handler_name(stem, hook) != bare,
{
    reveal_strlit("-");
    if handler_name(stem, hook) == bare {
        lemma_known_start(hook);
        let p = stem.len() + 1;
        assert(bare[p - 1] == '-');
        assert(bare[p as int] == hook[0]);
        lemma_known_inside(bare, p as int);
    }
}

/// Two plugins, or two hooks of one plugin, never share a name.
pub proof fn lemma_handler_names_are_distinct(
    stem1: Seq<char>,
    hook1: Seq<char>,
    stem2: Seq<char>,
    hook2: Seq<char>,
)
    requires
        known_hooks().contains(hook1),
        known_hooks().contains(hook2),
        handler_name(stem1, hook1) == handler_name(stem2, hook2),
    ensures
        stem1 == stem2,
        hook1 == hook2,
{
    reveal_strlit("-");
    let name = handler_name(stem1, hook1);
    assert(name.len() == stem1.len() + 1 + hook1.len());
    assert(handler_name(stem2, hook2).len() == stem2.len() + 1 + hook2.len());
    if stem1.len() < stem2.len() {
        lemma_known_start(hook2);
        let p = stem2.len() - stem1.len();
        assert(hook1[p - 1] == name[stem2.len() as int]);
        assert(name[stem2.len() as int] == handler_name(stem2, hook2)[stem2.len() as int]);
        assert(hook1[p as int] == handler_name(stem2, hook2)[1 + stem2.len() as int]);
        lemma_known_inside(hook1, p as int);
    } else if stem2.len() < stem1.len() {
        lemma_known_start(hook1);
        let p = stem1.len() - stem2.len();
        assert(hook2[p - 1] == handler_name(stem2, hook2)[stem1.len() as int]);
        assert(hook2[p as int] == name[1 + stem1.len() as int]);
        lemma_known_inside(hook2, p as int);
    } else {
        assert(stem1 =~= name.take(stem1.len() as int));
        assert(stem2 =~= handler_name(stem2, hook2).take(stem2.len() as int));
        assert(hook1 =~= name.skip(1 + stem1.len() as int));
        assert(hook2 =~= handler_name(stem2, hook2).skip(1 + stem2.len() as int));
    }
}

/// What the names in an environment are bound to after the bare hooks among
/// `hooks` were moved.
pub open spec fn moved<A>(
    env: Map<Seq<char>, A>,
    stem: Seq<char>,
    hooks: Seq<Seq<char>>,
) -> Map<Seq<char>, A>
    decreases hooks.len(),
{
    if hooks.len() == 0 {
        env
    } else {
        let hook = hooks.last();
        let before = moved(env, stem, hooks.drop_last());
        if before.contains_key(hook) {
            before.insert(handler_name(stem, hook), before[hook]).remove(hook)
        } else {
            before
        }
    }
}

proof fn lemma_moved<A>(env: Map<Seq<char>, A>, stem: Seq<char>, n: int, name: Seq<char>)
    requires
        0 <= n <= known_hooks().len(),
    ensures
        known_hooks().contains(name) ==> moved(env, stem, known_hooks().take(n)).contains_key(name)
            == (env.contains_key(name) && !known_hooks().take(n).contains(name)),
        known_hooks().contains(name) && moved(env, stem, known_hooks().take(n)).contains_key(name)
            ==> moved(env, stem, known_hooks().take(n))[name] == env[name],
        !known_hooks().contains(name) && (forall|hook: Seq<char>|
            known_hooks().contains(hook) ==> #[trigger] handler_name(stem, hook) != name) ==> {
            &&& moved(env, stem, known_hooks().take(n)).contains_key(name) == env.contains_key(
                name,
            )
            &&& moved(env, stem, known_hooks().take(n))[name] == env[name]
        },
        known_hooks().take(n).contains(name) && env.contains_key(name) ==> {
            &&& moved(env, stem, known_hooks().take(n)).contains_key(handler_name(stem, name))
            &&& moved(env, stem, known_hooks().take(n))[handler_name(stem, name)] == env[name]
        },
    decreases n,
{
    let hooks = known_hooks().take(n);
    if n > 0 {
        let hook = known_hooks()[n - 1];
        let shorter = known_hooks().take(n - 1);
        assert(hooks.drop_last() =~= shorter);
        assert(hooks.last() == hook);
        assert(known_hooks().contains(hook));
        lemma_moved(env, stem, n - 1, name);
        lemma_moved(env, stem, n - 1, hook);
        lemma_hooks_are_distinct();
        assert(!shorter.contains(hook)) by {
            if shorter.contains(hook) {
                let j = choose|j: int| 0 <= j < shorter.len() && shorter[j] == hook;
                assert(known_hooks()[j] == known_hooks()[n - 1]);
            }
        }
        assert(hooks =~= shorter.push(hook));
        if known_hooks().contains(name) {
            lemma_handler_name_is_not_bare(stem, hook, name);
            lemma_handler_name_is_not_bare(stem, name, hook);
            if handler_name(stem, name) == handler_name(stem, hook) {
                lemma_handler_names_are_distinct(stem, name, stem, hook);
            }
            if hooks.contains(name) {
                let j = choose|j: int| 0 <= j < hooks.len() && hooks[j] == name;
                if j < n - 1 {
                    assert(shorter[j] == name);
                }
            } else {
                assert(name != hooks[n - 1]);
            }
            if shorter.contains(name) {
                let j = choose|j: int| 0 <= j < shorter.len() && shorter[j] == name;
                assert(hooks[j] == name);
            }
            assert(hooks.contains(hook)) by {
                assert(hooks[n - 1] == hook);
            }
        } else {
            if hooks.contains(name) {
                let j = choose|j: int| 0 <= j < hooks.len() && hooks[j] == name;
                assert(known_hooks()[j] == name);
            }
        }
    }
}

proof fn lemma_hooks_are_distinct()
    ensures
        forall|i: int, j: int|
            0 <= i < j < known_hooks().len() ==> #[trigger] known_hooks()[i]
                != #[trigger] known_hooks()[j],
{
    reveal_strlit("on-init");
    reveal_strlit("on-prompt");
    reveal_strlit("on-response");
    reveal_strlit("on-tool-start");
    reveal_strlit("on-tool-end");
    reveal_strlit("on-error");
    reveal_strlit("on-complete");
    reveal_strlit("before-agent-start");
    reveal_strlit("on-turn-start");
    reveal_strlit("on-message-update");
    reveal_strlit("prepare-next-run");
    assert("on-init"@.len() == 7);
    assert("on-prompt"@.len() == 9);
    assert("on-response"@.len() == 11);
    assert("on-tool-start"@.len() == 13);
    assert("on-tool-end"@.len() == 11);
    assert("on-error"@.len() == 8);
    assert("on-complete"@.len() == 11);
    assert("before-agent-start"@.len() == 18);
    assert("on-turn-start"@.len() == 13);
    assert("on-message-update"@.len() == 17);
    assert("prepare-next-run"@.len() == 16);
    assert("on-response"@[3] == 'r');
    assert("on-tool-end"@[3] == 't');
    assert("on-complete"@[3] == 'c');
    assert("on-tool-start"@[5] == 'o');
    assert("on-turn-start"@[5] == 'r');
}

/// An environment after a step. A name that is not bound is no value for an
/// alias.
pub open spec fn step_run<A>(env: Map<Seq<char>, A>, step: Step) -> Map<Seq<char>, A> {
    match step {
        Step::Alias { alias, name } => if env.contains_key(name) {
            env.insert(alias, env[name])
        } else {
            env
        },
        Step::Unbind { name } => env.remove(name),
    }
}

/// An environment after some steps.
pub open spec fn steps_run<A>(env: Map<Seq<char>, A>, steps: Seq<Step>) -> Map<Seq<char>, A>
    decreases steps.len(),
{
    if steps.len() == 0 {
        env
    } else {
        step_run(steps_run(env, steps.drop_last()), steps.last())
    }
}

proof fn lemma_steps_give_moved_part<A>(
    env: Map<Seq<char>, A>,
    stem: Seq<char>,
    bound: Seq<Seq<char>>,
    n: int,
)
    requires
        0 <= n <= known_hooks().len(),
        forall|hook: Seq<char>|
            known_hooks().contains(hook) ==> (#[trigger] bound.contains(hook)
                <==> env.contains_key(hook)),
    ensures
        steps_run(env, move_steps(known_hooks().take(n), bound, stem)) == moved(
            env,
            stem,
            known_hooks().take(n),
        ),
    decreases n,
{
    let hooks = known_hooks().take(n);
    if n > 0 {
        let hook = known_hooks()[n - 1];
        let shorter = known_hooks().take(n - 1);
        assert(hooks.drop_last() =~= shorter);
        assert(hooks.last() == hook);
        assert(known_hooks().contains(hook));
        lemma_steps_give_moved_part(env, stem, bound, n - 1);
        lemma_moved(env, stem, n - 1, hook);
        lemma_hooks_are_distinct();
        assert(!shorter.contains(hook)) by {
            if shorter.contains(hook) {
                let j = choose|j: int| 0 <= j < shorter.len() && shorter[j] == hook;
                assert(known_hooks()[j] == known_hooks()[n - 1]);
            }
        }
        if bound.contains(hook) {
            let before = move_steps(shorter, bound, stem);
            let alias = Step::Alias { alias: handler_name(stem, hook), name: hook };
            let unbind = Step::Unbind { name: hook };
            let steps = before.push(alias).push(unbind);
            assert(steps.drop_last() =~= before.push(alias));
            assert(steps.drop_last().drop_last() =~= before);
            reveal_with_fuel(steps_run, 3);
        }
    }
}

/// The steps whose source ends a load move the bare hooks, where it was asked
/// truly which of them are bound.
pub proof fn lemma_steps_give_moved<A>(
    env: Map<Seq<char>, A>,
    stem: Seq<char>,
    bound: Seq<Seq<char>>,
)
    requires
        forall|hook: Seq<char>|
            known_hooks().contains(hook) ==> (#[trigger] bound.contains(hook)
                <==> env.contains_key(hook)),
    ensures
        steps_run(env, move_steps(known_hooks(), bound, stem)) == moved(
            env,
            stem,
            known_hooks(),
        ),
{
    assert(known_hooks().take(known_hooks().len() as int) =~= known_hooks());
    lemma_steps_give_moved_part(env, stem, bound, known_hooks().len() as int);
}

/// Once the steps that end the load of a plugin are taken, no hook is bound
/// under its bare name, so the next plugin does not inherit it. A hook that the
/// plugin defined under its bare name is bound, as it was, under the name with
/// the stem. Nothing else changes.
pub proof fn lemma_steps_leave_no_bare_hook<A>(
    env: Map<Seq<char>, A>,
    stem: Seq<char>,
    bound: Seq<Seq<char>>,
    name: Seq<char>,
)
    requires
        forall|hook: Seq<char>|
            known_hooks().contains(hook) ==> (#[trigger] bound.contains(hook)
                <==> env.contains_key(hook)),
    ensures
        no_bare_hook(
            env,
            steps_run(env, move_steps(known_hooks(), bound, stem)),
            stem,
            name,
        ),
{
    lemma_steps_give_moved(env, stem, bound);
    assert(known_hooks().take(known_hooks().len() as int) =~= known_hooks());
    lemma_moved(env, stem, known_hooks().len() as int, name);
}

/// What a load may do to a name between the environments `env` and `after`: the
/// bare name of a hook is unbound, and what it was bound to has the name with
/// the stem. A name that is neither stays as it was.
pub open spec fn no_bare_hook<A>(
    env: Map<Seq<char>, A>,
    after: Map<Seq<char>, A>,
    stem: Seq<char>,
    name: Seq<char>,
) -> bool {
    &&& known_hooks().contains(name) ==> !after.contains_key(name)
    &&& known_hooks().contains(name) && env.contains_key(name) ==> {
        &&& after.contains_key(handler_name(stem, name))
        &&& after[handler_name(stem, name)] == env[name]
    }
    &&& !known_hooks().contains(name) && (forall|hook: Seq<char>|
        known_hooks().contains(hook) ==> #[trigger] handler_name(stem, hook) != name) ==> {
        &&& after.contains_key(name) == env.contains_key(name)
        &&& after[name] == env[name]
    }
}

/// The step that source stands for.
pub open spec fn read_step(source: Seq<char>) -> Option<Step> {
    match crate::sources::read_alias(source) {
        Some((alias, name)) => Some(Step::Alias { alias, name }),
        None => match crate::sources::read_unbind(source) {
            Some(name) => Some(Step::Unbind { name }),
            None => None,
        },
    }
}

/// Whether all names in a step are symbols.
pub open spec fn names_symbols(step: Step) -> bool {
    match step {
        Step::Alias { alias, name } => crate::sources::is_symbol(alias)
            && crate::sources::is_symbol(name),
        Step::Unbind { name } => crate::sources::is_symbol(name),
    }
}

/// The source of a step reads back as that step, where its names are symbols.
pub proof fn lemma_step_round_trip(step: Step)
    requires
        names_symbols(step),
    ensures
        read_step(step_form(step)) == Some(step),
{
    match step {
        Step::Alias { alias, name } => crate::sources::lemma_alias_round_trip(alias, name),
        Step::Unbind { name } => crate::sources::lemma_unbind_round_trip(name),
    }
}

/// Whether the names with a stem are symbols. A blank, a bracket or a quote in
/// the stem, or a digit at its start, breaks them.
pub open spec fn symbol_stem(stem: Seq<char>) -> bool {
    crate::sources::is_symbol(stem + "-"@)
}

/// Whether a text is made of small letters and dashes, and begins with a letter.
spec fn is_dashed(s: Seq<char>) -> bool {
    &&& s.len() > 5
    &&& 'a' <= s[0] && s[0] <= 'z'
    &&& forall|i: int| 0 <= i < s.len() ==> (#[trigger] s[i] == '-' || ('a' <= s[i] && s[i] <= 'z'))
}

proof fn lemma_hook_is_dashed(hook: Seq<char>)
    requires
        known_hooks().contains(hook),
    ensures
        is_dashed(hook),
{
    lemma_known(hook);
    if hook == "on-init"@ {
        reveal_strlit("on-init");
        assert(is_dashed("on-init"@));
    } else if hook == "on-prompt"@ {
        reveal_strlit("on-prompt");
        assert(is_dashed("on-prompt"@));
    } else if hook == "on-response"@ {
        reveal_strlit("on-response");
        assert(is_dashed("on-response"@));
    } else if hook == "on-tool-start"@ {
        reveal_strlit("on-tool-start");
        assert(is_dashed("on-tool-start"@));
    } else if hook == "on-tool-end"@ {
        reveal_strlit("on-tool-end");
        assert(is_dashed("on-tool-end"@));
    } else if hook == "on-error"@ {
        reveal_strlit("on-error");
        assert(is_dashed("on-error"@));
    } else if hook == "on-complete"@ {
        reveal_strlit("on-complete");
        assert(is_dashed("on-complete"@));
    } else if hook == "before-agent-start"@ {
        reveal_strlit("before-agent-start");
        assert(is_dashed("before-agent-start"@));
    } else if hook == "on-turn-start"@ {
        reveal_strlit("on-turn-start");
        assert(is_dashed("on-turn-start"@));
    } else if hook == "on-message-update"@ {
        reveal_strlit("on-message-update");
        assert(is_dashed("on-message-update"@));
    } else if hook == "prepare-next-run"@ {
        reveal_strlit("prepare-next-run");
        assert(is_dashed("prepare-next-run"@));
    }
}

proof fn lemma_hook_is_symbol(hook: Seq<char>)
    requires
        known_hooks().contains(hook),
    ensures
        crate::sources::is_symbol(hook),
        hook.len() > 5,
{
    lemma_hook_is_dashed(hook);
    reveal_strlit("nil");
    reveal_strlit("true");
    reveal_strlit("false");
    assert("nil"@.len() == 3 && "true"@.len() == 4 && "false"@.len() == 5);
    assert forall|i: int| 0 <= i < hook.len() implies crate::sources::symbol_char(
        #[trigger] hook[i],
    ) by {
        assert(hook[i] == '-' || ('a' <= hook[i] && hook[i] <= 'z'));
    }
}

proof fn lemma_handler_name_is_symbol(stem: Seq<char>, hook: Seq<char>)
    requires
        symbol_stem(stem),
        known_hooks().contains(hook),
    ensures
        crate::sources::is_symbol(handler_name(stem, hook)),
{
    reveal_strlit("-");
    reveal_strlit("nil");
    reveal_strlit("true");
    reveal_strlit("false");
    let head = stem + "-"@;
    let name = handler_name(stem, hook);
    lemma_hook_is_symbol(hook);
    lemma_known_start(hook);
    assert(name =~= head + hook);
    assert forall|i: int| 0 <= i < name.len() implies crate::sources::symbol_char(
        #[trigger] name[i],
    ) by {
        if i < head.len() {
            assert(name[i] == head[i]);
        } else {
            assert(name[i] == hook[i - head.len()]);
        }
    }
    assert(name[0] == head[0]);
    assert(name[stem.len() as int] == '-');
    if stem.len() > 0 {
        assert(name[1] == head[1]);
    } else {
        assert(name[1] == hook[0]);
    }
    assert("nil"@.len() == 3 && "true"@.len() == 4 && "false"@.len() == 5);
}

/// An environment after some source was evaluated, where each piece of source
/// stands for a step.
pub open spec fn sources_run<A>(env: Map<Seq<char>, A>, sources: Seq<Seq<char>>) -> Option<
    Map<Seq<char>, A>,
>
    decreases sources.len(),
{
    if sources.len() == 0 {
        Some(env)
    } else {
        match (sources_run(env, sources.drop_last()), read_step(sources.last())) {
            (Some(before), Some(step)) => Some(step_run(before, step)),
            _ => None,
        }
    }
}

proof fn lemma_sources_run_steps<A>(env: Map<Seq<char>, A>, steps: Seq<Step>)
    requires
        forall|i: int| 0 <= i < steps.len() ==> names_symbols(#[trigger] steps[i]),
    ensures
        sources_run(env, steps.map_values(|step: Step| step_form(step))) == Some(
            steps_run(env, steps),
        ),
    decreases steps.len(),
{
    let sources = steps.map_values(|step: Step| step_form(step));
    if steps.len() > 0 {
        let shorter = steps.drop_last();
        assert forall|i: int| 0 <= i < shorter.len() implies names_symbols(
            #[trigger] shorter[i],
        ) by {
            assert(names_symbols(steps[i]));
        }
        lemma_sources_run_steps(env, shorter);
        assert(sources.drop_last() =~= shorter.map_values(|step: Step| step_form(step)));
        assert(names_symbols(steps[steps.len() - 1]));
        lemma_step_round_trip(steps.last());
    }
}

proof fn lemma_move_steps_name_symbols(n: int, bound: Seq<Seq<char>>, stem: Seq<char>)
    requires
        0 <= n <= known_hooks().len(),
        symbol_stem(stem),
    ensures
        ({
            let steps = move_steps(known_hooks().take(n), bound, stem);
            forall|i: int| 0 <= i < steps.len() ==> names_symbols(#[trigger] steps[i])
        }),
    decreases n,
{
    if n > 0 {
        let hook = known_hooks()[n - 1];
        let before = move_steps(known_hooks().take(n - 1), bound, stem);
        let steps = move_steps(known_hooks().take(n), bound, stem);
        assert(known_hooks().take(n).drop_last() =~= known_hooks().take(n - 1));
        assert(known_hooks().take(n).last() == hook);
        assert(known_hooks().contains(hook));
        lemma_move_steps_name_symbols(n - 1, bound, stem);
        lemma_hook_is_symbol(hook);
        lemma_handler_name_is_symbol(stem, hook);
        assert forall|i: int| 0 <= i < steps.len() implies names_symbols(#[trigger] steps[i]) by {
            if i < before.len() {
                assert(steps[i] == before[i]);
            }
        }
    }
}

/// The source that ends the load of a plugin leaves no hook under its bare name,
/// and moves what the plugin defined under one, where the names with the stem
/// are symbols.
pub proof fn lemma_load_leaves_no_bare_hook<A>(
    env: Map<Seq<char>, A>,
    stem: Seq<char>,
    bound: Seq<Seq<char>>,
    name: Seq<char>,
)
    requires
        symbol_stem(stem),
        forall|hook: Seq<char>|
            known_hooks().contains(hook) ==> (#[trigger] bound.contains(hook)
                <==> env.contains_key(hook)),
    ensures
        sources_run(env, moves(known_hooks(), bound, stem)) matches Some(after) && no_bare_hook(
            env,
            after,
            stem,
            name,
        ),
{
    let steps = move_steps(known_hooks(), bound, stem);
    assert(known_hooks().take(known_hooks().len() as int) =~= known_hooks());
    lemma_move_steps_name_symbols(known_hooks().len() as int, bound, stem);
    lemma_sources_run_steps(env, steps);
    lemma_steps_leave_no_bare_hook(env, stem, bound, name);
}

proof fn lemma_discovered(
    hooks: Seq<Seq<char>>,
    bound: Seq<Seq<char>>,
    stem: Seq<char>,
    hook: Seq<char>,
)
    ensures
        discovered(hooks, bound, stem).contains(hook) <==> hooks.contains(hook) && defines(
            bound,
            stem,
            hook,
        ),
    decreases hooks.len(),
{
    if hooks.len() > 0 {
        let shorter = hooks.drop_last();
        let last = hooks.last();
        lemma_discovered(shorter, bound, stem, hook);
        assert(hooks =~= shorter.push(last));
        let found = discovered(shorter, bound, stem);
        if hooks.contains(hook) {
            let j = choose|j: int| 0 <= j < hooks.len() && hooks[j] == hook;
            if j < shorter.len() {
                assert(shorter[j] == hook);
            }
        }
        if shorter.contains(hook) {
            let j = choose|j: int| 0 <= j < shorter.len() && shorter[j] == hook;
            assert(hooks[j] == hook);
        }
        assert(hooks[hooks.len() - 1] == last);
        if defines(bound, stem, last) {
            let all = found.push(last);
            assert(all[found.len() as int] == last);
            if found.contains(hook) {
                let j = choose|j: int| 0 <= j < found.len() && found[j] == hook;
                assert(all[j] == hook);
            }
            if all.contains(hook) {
                let j = choose|j: int| 0 <= j < all.len() && all[j] == hook;
                if j < found.len() {
                    assert(found[j] == hook);
                }
            }
        }
    }
}

/// A plugin listens to exactly the known hooks that it defines: one that is
/// bound neither under its bare name nor with the stem is not taken over from
/// an earlier plugin.
pub proof fn lemma_registered_hooks_are_those_defined(
    bound: Seq<Seq<char>>,
    stem: Seq<char>,
    hook: Seq<char>,
)
    ensures
        discovered(known_hooks(), bound, stem).contains(hook) <==> known_hooks().contains(hook)
            && defines(bound, stem, hook),
{
    lemma_discovered(known_hooks(), bound, stem, hook);
}

proof fn lemma_table_loaded(
    table: Seq<crate::hooks::HookEntryView>,
    stem: Seq<char>,
    hooks: Seq<Seq<char>>,
    hook: Seq<char>,
)
    requires
        forall|i: int, j: int| 0 <= i < j < hooks.len() ==> #[trigger] hooks[i] != #[trigger] hooks[j],
    ensures
        crate::hooks::handlers_of(table_loaded(table, stem, hooks), hook) == (if hooks.contains(
            hook,
        ) {
            crate::hooks::handlers_of(table, hook).push(handler_name(stem, hook))
        } else {
            crate::hooks::handlers_of(table, hook)
        }),
    decreases hooks.len(),
{
    if hooks.len() > 0 {
        let shorter = hooks.drop_last();
        let last = hooks.last();
        let before = table_loaded(table, stem, shorter);
        lemma_table_loaded(table, stem, shorter, hook);
        assert(hooks =~= shorter.push(last));
        assert(hooks[hooks.len() - 1] == last);
        if hook == last {
            assert(!shorter.contains(hook)) by {
                if shorter.contains(hook) {
                    let j = choose|j: int| 0 <= j < shorter.len() && shorter[j] == hook;
                    assert(hooks[j] == hooks[hooks.len() - 1]);
                }
            }
            crate::hooks::lemma_registration_is_found(before, hook, handler_name(stem, hook));
        } else {
            crate::hooks::lemma_registration_is_local(
                before,
                last,
                handler_name(stem, last),
                hook,
            );
            if hooks.contains(hook) {
                let j = choose|j: int| 0 <= j < hooks.len() && hooks[j] == hook;
                assert(shorter[j] == hook);
            }
            if shorter.contains(hook) {
                let j = choose|j: int| 0 <= j < shorter.len() && shorter[j] == hook;
                assert(hooks[j] == hook);
            }
        }
    }
}

proof fn lemma_discovered_distinct(hooks: Seq<Seq<char>>, bound: Seq<Seq<char>>, stem: Seq<char>)
    requires
        forall|i: int, j: int| 0 <= i < j < hooks.len() ==> #[trigger] hooks[i] != #[trigger] hooks[j],
    ensures
        forall|i: int, j: int|
            0 <= i < j < discovered(hooks, bound, stem).len() ==> #[trigger] discovered(
                hooks,
                bound,
                stem,
            )[i] != #[trigger] discovered(hooks, bound, stem)[j],
    decreases hooks.len(),
{
    if hooks.len() > 0 {
        let shorter = hooks.drop_last();
        let last = hooks.last();
        let found = discovered(shorter, bound, stem);
        assert forall|i: int, j: int| 0 <= i < j < shorter.len() implies #[trigger] shorter[i]
            != #[trigger] shorter[j] by {
            assert(hooks[i] != hooks[j]);
        }
        lemma_discovered_distinct(shorter, bound, stem);
        lemma_discovered(shorter, bound, stem, last);
        assert(!found.contains(last)) by {
            if shorter.contains(last) {
                let j = choose|j: int| 0 <= j < shorter.len() && shorter[j] == last;
                assert(hooks[j] == hooks[hooks.len() - 1]);
            }
        }
        let all = discovered(hooks, bound, stem);
        assert forall|i: int, j: int| 0 <= i < j < all.len() implies #[trigger] all[i]
            != #[trigger] all[j] by {
            if all.len() > found.len() && j == found.len() {
                assert(found[i] == all[i]);
            } else {
                assert(found[i] == all[i] && found[j] == all[j]);
            }
        }
    }
}

/// A load adds one handler to each hook that the plugin defines, behind the
/// handlers of the plugins that were loaded before it, and none to any other
/// hook.
pub proof fn lemma_load_adds_one_handler_per_hook(
    table: Seq<crate::hooks::HookEntryView>,
    bound: Seq<Seq<char>>,
    stem: Seq<char>,
    hook: Seq<char>,
)
    ensures
        crate::hooks::handlers_of(
            table_loaded(table, stem, discovered(known_hooks(), bound, stem)),
            hook,
        ) == (if known_hooks().contains(hook) && defines(bound, stem, hook) {
            crate::hooks::handlers_of(table, hook).push(handler_name(stem, hook))
        } else {
            crate::hooks::handlers_of(table, hook)
        }),
{
    lemma_hooks_are_distinct();
    lemma_discovered_distinct(known_hooks(), bound, stem);
    lemma_discovered(known_hooks(), bound, stem, hook);
    lemma_table_loaded(table, stem, discovered(known_hooks(), bound, stem), hook);
}

proof fn lemma_probes(hooks: Seq<Seq<char>>, stem: Seq<char>, i: int)
    requires
        0 <= i < hooks.len(),
    ensures
        probes(hooks, stem).contains(hooks[i]),
        probes(hooks, stem).contains(handler_name(stem, hooks[i])),
    decreases hooks.len(),
{
    let shorter = hooks.drop_last();
    let head = probes(shorter, stem);
    let whole = probes(hooks, stem);
    if i == hooks.len() - 1 {
        assert(whole[head.len() as int] == hooks[i]);
        assert(whole[1 + head.len() as int] == handler_name(stem, hooks[i]));
    } else {
        lemma_probes(shorter, stem, i);
        let j = choose|j: int| 0 <= j < head.len() && head[j] == hooks[i];
        let k = choose|k: int| 0 <= k < head.len() && head[k] == handler_name(stem, hooks[i]);
        assert(whole[j] == hooks[i]);
        assert(whole[k] == handler_name(stem, hooks[i]));
    }
}

proof fn lemma_bound_decides(
    hooks: Seq<Seq<char>>,
    stem: Seq<char>,
    a: Seq<Seq<char>>,
    b: Seq<Seq<char>>,
)
    requires
        forall|i: int|
            0 <= i < hooks.len() ==> a.contains(#[trigger] hooks[i]) == b.contains(hooks[i])
                && a.contains(handler_name(stem, hooks[i])) == b.contains(
                handler_name(stem, hooks[i]),
            ),
    ensures
        discovered(hooks, a, stem) == discovered(hooks, b, stem),
        move_steps(hooks, a, stem) == move_steps(hooks, b, stem),
    decreases hooks.len(),
{
    if hooks.len() > 0 {
        assert forall|i: int| 0 <= i < hooks.drop_last().len() implies a.contains(
            #[trigger] hooks.drop_last()[i],
        ) == b.contains(hooks.drop_last()[i]) && a.contains(
            handler_name(stem, hooks.drop_last()[i]),
        ) == b.contains(handler_name(stem, hooks.drop_last()[i])) by {
            assert(hooks[i] == hooks.drop_last()[i]);
        }
        lemma_bound_decides(hooks.drop_last(), stem, a, b);
        assert(hooks[hooks.len() - 1] == hooks.last());
    }
}

/// The names that the host asks for decide a load: two answers that agree on
/// them register the same hooks and move the same ones.
pub proof fn lemma_probes_decide_the_load(
    stem: Seq<char>,
    a: Seq<Seq<char>>,
    b: Seq<Seq<char>>,
)
    requires
        forall|name: Seq<char>|
            probes(known_hooks(), stem).contains(name) ==> #[trigger] a.contains(name)
                == b.contains(name),
    ensures
        discovered(known_hooks(), a, stem) == discovered(known_hooks(), b, stem),
        moves(known_hooks(), a, stem) == moves(known_hooks(), b, stem),
{
    assert forall|i: int| 0 <= i < known_hooks().len() implies a.contains(
        #[trigger] known_hooks()[i],
    ) == b.contains(known_hooks()[i]) && a.contains(handler_name(stem, known_hooks()[i]))
        == b.contains(handler_name(stem, known_hooks()[i])) by {
        lemma_probes(known_hooks(), stem, i);
    }
    lemma_bound_decides(known_hooks(), stem, a, b);
}

/// A manager of its own into which the notebook plugin was loaded, where
/// `effect` is what its files do to the harness and `bound` holds the names that
/// are bound once they were evaluated.
pub open spec fn notebook_loaded(
    nonce: u64,
    effect: spec_fn(crate::harness::HarnessView) -> crate::harness::HarnessView,
    bound: Seq<Seq<char>>,
) -> crate::manager::ManagerView {
    let fresh = crate::manager::ManagerView::fresh(nonce);
    plugin_loaded(fresh.with_harness(effect(fresh.harness)), "notebook"@, bound)
}

/// Loads of the notebook plugin do not add up. Each starts from a manager of its
/// own, so two loads whose files do the same, whatever the managers are marked
/// with, leave the same hooks, the same harness, and with it the same tools and
/// commands; and a hook has the one handler of the plugin, or none.
pub proof fn lemma_notebook_loads_do_not_add_up(
    first: u64,
    second: u64,
    effect: spec_fn(crate::harness::HarnessView) -> crate::harness::HarnessView,
    bound: Seq<Seq<char>>,
    hook: Seq<char>,
)
    ensures
        ({
            let a = notebook_loaded(first, effect, bound);
            let b = notebook_loaded(second, effect, bound);
            &&& a.hooks == b.hooks
            &&& a.harness == b.harness
            &&& crate::registry::listing::<crate::registry::PluginToolMeta>(
                a.harness.registries.tools,
            ) == crate::registry::listing::<crate::registry::PluginToolMeta>(
                b.harness.registries.tools,
            )
            &&& crate::registry::listing::<(String, String)>(a.harness.registries.commands)
                == crate::registry::listing::<(String, String)>(b.harness.registries.commands)
            &&& crate::hooks::handlers_of(b.hooks, hook) == (if known_hooks().contains(hook)
                && defines(bound, "notebook"@, hook) {
                seq![handler_name("notebook"@, hook)]
            } else {
                Seq::empty()
            })
        }),
{
    let none = Seq::<crate::hooks::HookEntryView>::empty();
    lemma_load_adds_one_handler_per_hook(none, bound, "notebook"@, hook);
    assert(crate::hooks::handlers_of(none, hook) =~= Seq::empty());
    assert(Seq::<Seq<char>>::empty().push(handler_name("notebook"@, hook)) =~= seq![
        handler_name("notebook"@, hook),
    ]);
}

proof fn lemma_decimal_has_no_dash(n: nat, i: int)
    requires
        0 <= i < crate::text::numeral(n, 10).len(),
    ensures
        crate::text::numeral(n, 10)[i] != '-',
{
    crate::text::lemma_numeral_chars(n, 10, i);
}

/// Files that are written to try loads have different names, unless the process
/// and the label are the same.
pub proof fn lemma_loadtest_names_differ(
    pid1: nat,
    label1: Seq<char>,
    pid2: nat,
    label2: Seq<char>,
)
    requires
        pid1 != pid2 || label1 != label2,
    ensures
        loadtest_form(pid1, label1) != loadtest_form(pid2, label2),
{
    if loadtest_form(pid1, label1) == loadtest_form(pid2, label2) {
        reveal_strlit("-");
        let name1 = loadtest_form(pid1, label1);
        let name2 = loadtest_form(pid2, label2);
        let head = "dirge-plugin-loadtest-"@.len() as int;
        let tail = ".janet"@.len() as int;
        let a = crate::text::numeral(pid1, 10);
        let b = crate::text::numeral(pid2, 10);
        assert(name1[head + a.len()] == '-');
        assert(name2[head + b.len()] == '-');
        if a.len() < b.len() {
            assert(name2[head + a.len()] == b[a.len() as int]);
            lemma_decimal_has_no_dash(pid2, a.len() as int);
        } else if b.len() < a.len() {
            assert(name1[head + b.len()] == a[b.len() as int]);
            lemma_decimal_has_no_dash(pid1, b.len() as int);
        }
        let end = name1.len() - tail;
        assert(a =~= name1.subrange(head, head + a.len()));
        assert(b =~= name2.subrange(head, head + b.len()));
        crate::text::lemma_numeral_injective(pid1, pid2, 10);
        assert(label1 =~= name1.subrange(head + a.len() + 1, end));
        assert(label2 =~= name2.subrange(head + b.len() + 1, end));
    }
}

// ---------------------------------------------------------------------
// Files and names, as they are written
// ---------------------------------------------------------------------

proof fn lemma_last_dot(name: Seq<char>)
    ensures
        0 <= last_dot(name),
        last_dot(name) > 0 ==> last_dot(name) < name.len() && name[last_dot(name)] == '.',
        forall|i: int| last_dot(name) < i < name.len() ==> #[trigger] name[i] != '.',
    decreases name.len(),
{
    if name.len() > 0 && name.last() != '.' {
        let shorter = name.drop_last();
        lemma_last_dot(shorter);
        assert forall|i: int| last_dot(name) < i < name.len() implies #[trigger] name[i] != '.' by {
            if i < shorter.len() {
                assert(shorter[i] == name[i]);
            }
        }
        if last_dot(name) > 0 {
            assert(shorter[last_dot(name)] == name[last_dot(name)]);
        }
    }
}

/// A file holds plugin code where its name ends in `.janet` behind at least one
/// character, and only there.
pub proof fn lemma_plugin_code_ends_in_janet(name: Seq<char>)
    ensures
        is_janet(name) <==> ends_in_janet(name),
{
    lemma_last_dot(name);
    reveal_strlit("janet");
    reveal_strlit(".janet");
    let d = last_dot(name);
    assert("janet"@.len() == 5 && ".janet"@.len() == 6);
    assert(".janet"@ =~= seq!['.'] + "janet"@);
    if is_janet(name) {
        assert(name.skip(name.len() - 6) =~= seq!['.'] + name.skip(d + 1));
    }
    if ends_in_janet(name) {
        let tail = name.skip(name.len() - 6);
        assert(tail[0] == '.' && tail[1] == 'j' && tail[2] == 'a' && tail[3] == 'n' && tail[4]
            == 'e' && tail[5] == 't');
        assert(name[name.len() - 6] == '.');
        assert(d == name.len() - 6) by {
            if d > name.len() - 6 {
                assert(name[d] == tail[d - (name.len() - 6)]);
            }
        }
        assert(name.skip(d + 1) =~= tail.skip(1));
        assert(tail.skip(1) =~= "janet"@);
    }
}

/// Of the names of a directory all that are plugin code are kept, however many
/// there are, in their order, and no other.
pub proof fn lemma_every_janet_file_is_kept(names: Seq<Seq<char>>)
    ensures
        janet_files(names) == names.filter(|name: Seq<char>| ends_in_janet(name)),
    decreases names.len(),
{
    reveal(Seq::filter);
    let keep = |name: Seq<char>| ends_in_janet(name);
    if names.len() == 0 {
        assert(names.filter(keep) =~= Seq::empty());
    } else {
        lemma_every_janet_file_is_kept(names.drop_last());
        lemma_plugin_code_ends_in_janet(names.last());
    }
}

/// The files that are planned for a directory are those of its names that end
/// in `.janet`, each as often as it occurs there.
pub proof fn lemma_planned_files_are_those_of_the_directory(
    names: Seq<Seq<char>>,
    files: Seq<Seq<char>>,
    name: Seq<char>,
)
    requires
        files.to_multiset() == janet_files(names).to_multiset(),
    ensures
        files.to_multiset().count(name) == (if name.len() > 6 && name.skip(name.len() - 6)
            == ".janet"@ {
            names.to_multiset().count(name)
        } else {
            0
        }),
{
    lemma_kept_count(names, name);
}

proof fn lemma_kept_count(names: Seq<Seq<char>>, name: Seq<char>)
    ensures
        janet_files(names).to_multiset().count(name) == (if ends_in_janet(name) {
            names.to_multiset().count(name)
        } else {
            0
        }),
    decreases names.len(),
{
    broadcast use vstd::seq_lib::group_to_multiset_ensures;

    if names.len() == 0 {
        assert(names =~= Seq::empty());
        assert(janet_files(names) =~= Seq::empty());
    } else {
        let shorter = names.drop_last();
        lemma_kept_count(shorter, name);
        lemma_plugin_code_ends_in_janet(names.last());
        assert(names =~= shorter.push(names.last()));
    }
}

/// The stem of a file is its name up to the last dot; a dot at the start begins
/// no extension.
pub proof fn lemma_stem_is_the_name_without_its_extension(stem: Seq<char>, extension: Seq<char>)
    requires
        stem.len() > 0,
        !extension.contains('.'),
    ensures
        stem_of(stem + seq!['.'] + extension) == stem,
        stem_of(extension) == extension,
        stem_of(seq!['.'] + extension) == seq!['.'] + extension,
{
    let name = stem + seq!['.'] + extension;
    let hidden = seq!['.'] + extension;
    lemma_last_dot(name);
    lemma_last_dot(hidden);
    lemma_last_dot(extension);
    assert(name[stem.len() as int] == '.');
    if last_dot(name) > stem.len() {
        assert(name[last_dot(name)] == extension[last_dot(name) - stem.len() - 1]);
    }
    assert(name.take(stem.len() as int) =~= stem);
    if last_dot(hidden) > 0 {
        assert(hidden[last_dot(hidden)] == extension[last_dot(hidden) - 1]);
    }
    if last_dot(extension) > 0 {
        assert(extension.contains(extension[last_dot(extension)]));
    }
}

/// The error for a directory names it, and the error for a file names the file
/// and ends with the cause.
pub proof fn lemma_load_errors_name_what_failed(path: Seq<char>, cause: Seq<char>)
    ensures
        crate::prelude::stands_in(path, no_files_text(path)),
        crate::prelude::stands_in(path + ": "@ + cause, read_failure_text(path, cause)),
        read_failure_text(path, cause).skip(
            read_failure_text(path, cause).len() - cause.len(),
        ) == cause,
        no_files_text(path).len() > path.len(),
{
    reveal_strlit("plugin directory ");
    assert(no_files_text(path) =~= "plugin directory "@ + (path + " has no .janet files"@));
    let text = read_failure_text(path, cause);
    assert(text =~= "Failed to read plugin "@ + ((path + ": "@ + cause) + Seq::<char>::empty()));
    assert(text.skip(text.len() - cause.len()) =~= cause);
}

/// Of the directories those that exist are kept, in their order: one more
/// directory is kept behind the others where it exists, and left out where it
/// does not.
pub proof fn lemma_existing_directories_are_kept(
    paths: Seq<Seq<char>>,
    flags: Seq<bool>,
    path: Seq<char>,
    flag: bool,
)
    requires
        paths.len() == flags.len(),
    ensures
        flagged(paths.push(path), flags.push(flag)) == (if flag {
            flagged(paths, flags).push(path)
        } else {
            flagged(paths, flags)
        }),
        flagged(Seq::empty(), Seq::empty()).len() == 0,
{
    assert(paths.push(path).drop_last() =~= paths);
    lemma_flagged_prefix(paths, flags, flag);
}

proof fn lemma_flagged_prefix(paths: Seq<Seq<char>>, flags: Seq<bool>, flag: bool)
    requires
        paths.len() <= flags.len(),
    ensures
        flagged(paths, flags.push(flag)) == flagged(paths, flags),
    decreases paths.len(),
{
    if paths.len() > 0 {
        lemma_flagged_prefix(paths.drop_last(), flags, flag);
    }
}

/// The hooks that a plugin may define are these eleven and no other.
pub proof fn lemma_hooks_are_known(hook: Seq<char>)
    ensures
        known_hooks().contains(hook) <==> (hook == "on-init"@ || hook == "on-prompt"@ || hook
            == "on-response"@ || hook == "on-tool-start"@ || hook == "on-tool-end"@ || hook
            == "on-error"@ || hook == "on-complete"@ || hook == "before-agent-start"@ || hook
            == "on-turn-start"@ || hook == "on-message-update"@ || hook == "prepare-next-run"@),
{
    if known_hooks().contains(hook) {
        lemma_known(hook);
    }
    let all = known_hooks();
    assert(all[0] == "on-init"@ && all[1] == "on-prompt"@ && all[2] == "on-response"@ && all[3]
        == "on-tool-start"@ && all[4] == "on-tool-end"@ && all[5] == "on-error"@ && all[6]
        == "on-complete"@ && all[7] == "before-agent-start"@ && all[8] == "on-turn-start"@
        && all[9] == "on-message-update"@ && all[10] == "prepare-next-run"@);
    assert(all.len() == 11);
}

/// The name of a handler is the stem, a dash and the hook.
pub proof fn lemma_handler_name_is_stem_and_hook(stem: Seq<char>, hook: Seq<char>)
    ensures
        ({
            let name = handler_name(stem, hook);
            &&& name.len() == stem.len() + 1 + hook.len()
            &&& name.take(stem.len() as int) == stem
            &&& name[stem.len() as int] == '-'
            &&& name.skip(1 + stem.len() as int) == hook
        }),
{
    reveal_strlit("-");
    let name = handler_name(stem, hook);
    assert(name.take(stem.len() as int) =~= stem);
    assert(name.skip(1 + stem.len() as int) =~= hook);
}

/// The load of a plugin registers, for every hook that is bound under its bare
/// name or behind the stem and a dash, one handler behind those of earlier
/// plugins, and for no other hook. Nothing but the hooks of the manager
/// changes.
pub proof fn lemma_load_registers_what_is_bound(
    mgr: crate::manager::ManagerView,
    stem: Seq<char>,
    bound: Seq<Seq<char>>,
    hook: Seq<char>,
)
    ensures
        ({
            let after = plugin_loaded(mgr, stem, bound);
            let name = stem + seq!['-'] + hook;
            let found = known_hooks().contains(hook) && (bound.contains(hook) || bound.contains(
                name,
            ));
            let before = crate::hooks::handlers_of(mgr.hooks, hook);
            &&& crate::hooks::handlers_of(after.hooks, hook) == (if found {
                before.push(name)
            } else {
                before
            })
            &&& discovered(known_hooks(), bound, stem).contains(hook) <==> found
            &&& after.harness == mgr.harness
            &&& after.sentinel == mgr.sentinel
        }),
{
    reveal_strlit("-");
    assert("-"@ =~= seq!['-']);
    lemma_load_adds_one_handler_per_hook(mgr.hooks, bound, stem, hook);
    lemma_registered_hooks_are_those_defined(bound, stem, hook);
}

/// The hooks of a plugin are told in the order in which the host knows them,
/// each once.
pub proof fn lemma_registered_hooks_keep_their_order(
    hooks: Seq<Seq<char>>,
    bound: Seq<Seq<char>>,
    stem: Seq<char>,
)
    ensures
        discovered(hooks, bound, stem) == hooks.filter(
            |hook: Seq<char>|
                bound.contains(hook) || bound.contains(stem + "-"@ + hook),
        ),
    decreases hooks.len(),
{
    reveal(Seq::filter);
    let keep = |hook: Seq<char>| bound.contains(hook) || bound.contains(stem + "-"@ + hook);
    if hooks.len() == 0 {
        assert(hooks.filter(keep) =~= Seq::empty());
    } else {
        lemma_registered_hooks_keep_their_order(hooks.drop_last(), bound, stem);
    }
}

/// What the host asks for are the bare name and the name with the stem of each
/// known hook, and nothing else.
pub proof fn lemma_probes_are_the_names_of_hooks(
    hooks: Seq<Seq<char>>,
    stem: Seq<char>,
    hook: Seq<char>,
)
    ensures
        probes(hooks.push(hook), stem) == probes(hooks, stem) + seq![hook, stem + "-"@ + hook],
        probes(Seq::empty(), stem).len() == 0,
{
    assert(hooks.push(hook).drop_last() =~= hooks);
    assert(probes(hooks.push(hook), stem) =~= probes(hooks, stem) + seq![
        hook,
        stem + "-"@ + hook,
    ]);
}

/// The error of a file is the text that it failed with.
pub proof fn lemma_failure_keeps_its_text(msg: String)
    ensures
        error_in(Err(msg)) == Some(msg@),
        error_in(Ok(())) is None,
{
}

/// The file that is written to try a load is plugin code, and its name holds
/// the process and the label.
pub proof fn lemma_loadtest_name_holds_its_parts(pid: nat, label: Seq<char>)
    ensures
        ({
            let name = loadtest_form(pid, label);
            let head = "dirge-plugin-loadtest-"@.len() as int;
            let digits = crate::text::numeral(pid, 10).len() as int;
            &&& "dirge-plugin-loadtest-"@.is_prefix_of(name)
            &&& crate::text::number_of(name.subrange(head, head + digits), 10) == pid
            &&& name[head + digits] == '-'
            &&& name.subrange(head + digits + 1, name.len() - 6) == label
            &&& is_janet(name)
        }),
{
    reveal_strlit("-");
    reveal_strlit(".janet");
    let name = loadtest_form(pid, label);
    let head = "dirge-plugin-loadtest-"@.len() as int;
    let number = crate::text::numeral(pid, 10);
    let digits = number.len() as int;
    crate::text::lemma_numeral_stands_for_its_number(pid, 10);
    assert(".janet"@.len() == 6);
    assert("dirge-plugin-loadtest-"@ =~= name.take(head));
    assert(name.subrange(head, head + digits) =~= number);
    assert(name.subrange(head + digits + 1, name.len() - 6) =~= label);
    assert(name.skip(name.len() - 6) =~= ".janet"@);
    lemma_plugin_code_ends_in_janet(name);
}

} // verus!
