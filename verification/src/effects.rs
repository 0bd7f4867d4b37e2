//! Effects: what the steps of the host do to the files of a machine.
//!
//! Files are told by their paths, and of each it counts what it holds and whether
//! anyone but its owner can open it. Directories and running programs are taken to
//! leave files as they are.

use vstd::prelude::*;
use vstd::string::*;

use crate::files::below;
use crate::host::{draft_path, forget_script, keep_script, whole_install};
use crate::machine::{files_tell_names_apart, log_path_in, state_of, unit_path_in, Surroundings};
use crate::names::{is_name, label_of};
use crate::steps::{ActionView, StepView};
use crate::supervisor::{
    launchd_dir, plist_of, service_of, service_text_of, supervisor_of, systemd_dir,
    units_tell_names_apart, Supervisor,
};

verus! {

/// A file: what it holds, and whether no one but its owner can open it.
pub struct FileView {
    pub text: Seq<char>,
    pub private: bool,
}

/// Whether there is a file at a path that no one but its owner can open.
pub open spec fn is_private(files: Map<Seq<char>, FileView>, path: Seq<char>) -> bool {
    files.contains_key(path) && files[path].private
}

/// Whether there is the same at a path: the same file, or none.
pub open spec fn same_at(
    before: Map<Seq<char>, FileView>,
    after: Map<Seq<char>, FileView>,
    path: Seq<char>,
) -> bool {
    after.contains_key(path) == before.contains_key(path) && (before.contains_key(path)
        ==> after[path] == before[path])
}

/// The files of a machine once an action is done.
pub open spec fn effect(files: Map<Seq<char>, FileView>, action: ActionView) -> Map<
    Seq<char>,
    FileView,
> {
    match action {
        ActionView::CreatePrivate(path) => files.insert(
            path,
            FileView {
                text: Seq::empty(),
                private: !files.contains_key(path) || files[path].private,
            },
        ),
        ActionView::Secure(path) => if files.contains_key(path) {
            files.insert(path, FileView { text: files[path].text, private: true })
        } else {
            files
        },
        ActionView::Write { path, text } => files.insert(
            path,
            FileView { text, private: is_private(files, path) },
        ),
        ActionView::Rename { from, to } => if files.contains_key(from) {
            files.remove(from).insert(to, files[from])
        } else {
            files
        },
        ActionView::Remove(path) => files.remove(path),
        ActionView::CreateDirs(_) => files,
        ActionView::Run { .. } => files,
    }
}

/// Whether an action, done or not or broken off on the way, may have left the
/// files like this: a text may be there in part.
pub open spec fn may_leave(
    files: Map<Seq<char>, FileView>,
    action: ActionView,
    left: Map<Seq<char>, FileView>,
) -> bool {
    ||| left == files
    ||| left == effect(files, action)
    ||| action matches ActionView::Write { path, text } && exists|n: int|
        0 <= n <= text.len() && left == effect(
            files,
            ActionView::Write { path, text: #[trigger] text.take(n) },
        )
}

/// The files of a machine once some steps are taken, and done where they have to
/// be.
pub open spec fn after_steps(files: Map<Seq<char>, FileView>, steps: Seq<StepView>) -> Map<
    Seq<char>,
    FileView,
>
    decreases steps.len(),
{
    if steps.len() == 0 {
        files
    } else {
        effect(after_steps(files, steps.drop_last()), steps.last().action)
    }
}

/// One step more has its effect on top of those before it.
proof fn one_step_more(files: Map<Seq<char>, FileView>, steps: Seq<StepView>, n: int)
    requires
        0 <= n < steps.len(),
    ensures
        after_steps(files, steps.take(n + 1)) == effect(
            after_steps(files, steps.take(n)),
            steps[n].action,
        ),
{
    assert(steps.take(n + 1).drop_last() =~= steps.take(n));
}

/// Some steps and then others have the effects of the one and then of the other.
proof fn effects_follow(
    files: Map<Seq<char>, FileView>,
    first: Seq<StepView>,
    others: Seq<StepView>,
)
    ensures
        after_steps(files, first + others) == after_steps(after_steps(files, first), others),
    decreases others.len(),
{
    if others.len() == 0 {
        assert(first + others =~= first);
    } else {
        effects_follow(files, first, others.drop_last());
        assert((first + others).drop_last() =~= first + others.drop_last());
        assert((first + others).last() == others.last());
    }
}

// Paths.

proof fn ends_like_its_file(dir: Seq<char>, file: Seq<char>)
    requires
        file.len() > 0,
    ensures
        below(dir, file).last() == file.last(),
{
}

/// The last characters of the paths of an agent's files tell them apart, whoever
/// the agents are.
proof fn paths_end_as_files_do(
    dir: Seq<char>,
    home: Seq<char>,
    sup: Supervisor,
    name: Seq<char>,
)
    ensures
        unit_path_in(dir, name).last() == 'n',
        draft_path(dir, name).last() == 'p',
        log_path_in(dir, name).last() == 'g',
        sup.definition_path(home, name).last() == if sup is Launchd {
            't'
        } else {
            'e'
        },
{
    reveal_strlit(".json");
    reveal_strlit(".json.tmp");
    reveal_strlit(".log");
    reveal_strlit(".plist");
    reveal_strlit(".service");
    ends_like_its_file(dir, name + ".json"@);
    ends_like_its_file(dir, "."@ + name + ".json.tmp"@);
    ends_like_its_file(below(dir, "logs"@), name + ".log"@);
    ends_like_its_file(launchd_dir(home), label_of(name) + ".plist"@);
    ends_like_its_file(systemd_dir(home), service_of(name));
}

// Keeping a description.

/// The files once a description is kept: it is in its place, private, and its
/// draft is gone.
pub open spec fn with_description(
    files: Map<Seq<char>, FileView>,
    dir: Seq<char>,
    name: Seq<char>,
    description: Seq<char>,
) -> Map<Seq<char>, FileView> {
    files.remove(draft_path(dir, name)).insert(
        unit_path_in(dir, name),
        FileView { text: description, private: true },
    )
}

/// Keeping a description puts it in its place, where no one but its owner can open
/// it, leaves no draft, and changes no other file.
pub proof fn keeping_stores_the_description(
    files: Map<Seq<char>, FileView>,
    dir: Seq<char>,
    name: Seq<char>,
    description: Seq<char>,
)
    ensures
        after_steps(files, keep_script(dir, name, description)) == with_description(
            files,
            dir,
            name,
            description,
        ),
{
    let steps = keep_script(dir, name, description);
    let draft = draft_path(dir, name);
    assert(steps.take(0) =~= Seq::<StepView>::empty());
    one_step_more(files, steps, 0);
    one_step_more(files, steps, 1);
    one_step_more(files, steps, 2);
    one_step_more(files, steps, 3);
    one_step_more(files, steps, 4);
    one_step_more(files, steps, 5);
    assert(steps.take(6) =~= steps);
    let written = after_steps(files, steps.take(5));
    assert(written =~= files.insert(draft, FileView { text: description, private: true }));
    assert(after_steps(files, steps) =~= with_description(files, dir, name, description));
}

/// At no moment is a description in a file that others can open, however far its
/// keeping got and wherever it was broken off: such a file holds nothing, or what
/// it held before.
pub proof fn descriptions_are_never_readable(
    files: Map<Seq<char>, FileView>,
    dir: Seq<char>,
    name: Seq<char>,
    description: Seq<char>,
    n: int,
    left: Map<Seq<char>, FileView>,
    path: Seq<char>,
)
    requires
        0 <= n < keep_script(dir, name, description).len(),
        may_leave(
            after_steps(files, keep_script(dir, name, description).take(n)),
            keep_script(dir, name, description)[n].action,
            left,
        ),
        left.contains_key(path),
        !left[path].private,
    ensures
        left[path].text.len() == 0 || (files.contains_key(path) && files[path] == left[path]),
{
    let steps = keep_script(dir, name, description);
    assert(steps.take(0) =~= Seq::<StepView>::empty());
    one_step_more(files, steps, 0);
    one_step_more(files, steps, 1);
    one_step_more(files, steps, 2);
    one_step_more(files, steps, 3);
    one_step_more(files, steps, 4);
}

// Installing.

/// What the definition of a unit holds.
pub open spec fn definition_text(
    sup: Supervisor,
    log: Seq<char>,
    name: Seq<char>,
    host: Seq<char>,
) -> Seq<char> {
    match sup {
        Supervisor::Launchd(_) => plist_of(name, host, log),
        Supervisor::Systemd(_) => service_text_of(name, host),
    }
}

/// Having a unit run writes its definition and changes no other file.
pub proof fn starting_writes_the_definition(
    files: Map<Seq<char>, FileView>,
    home: Seq<char>,
    log: Seq<char>,
    sup: Supervisor,
    name: Seq<char>,
    host: Seq<char>,
)
    ensures
        after_steps(files, sup.install_script(home, log, name, host)) == effect(
            files,
            ActionView::Write {
                path: sup.definition_path(home, name),
                text: definition_text(sup, log, name, host),
            },
        ),
{
    let steps = sup.install_script(home, log, name, host);
    assert(steps.take(0) =~= Seq::<StepView>::empty());
    one_step_more(files, steps, 0);
    one_step_more(files, steps, 1);
    one_step_more(files, steps, 2);
    one_step_more(files, steps, 3);
    one_step_more(files, steps, 4);
    assert(steps.take(5) =~= steps);
}

/// Once an agent is installed, its description is in its place, as it was sent and
/// private; no draft is left; the definition of its unit is there; and no other
/// file has changed.
pub proof fn installing_stores_the_description(
    files: Map<Seq<char>, FileView>,
    dir: Seq<char>,
    home: Seq<char>,
    sup: Supervisor,
    name: Seq<char>,
    host: Seq<char>,
    description: Seq<char>,
)
    ensures
        ({
            let after = after_steps(files, whole_install(dir, home, sup, name, host, description));
            let unit = unit_path_in(dir, name);
            let draft = draft_path(dir, name);
            let definition = sup.definition_path(home, name);
            &&& after.contains_key(unit)
            &&& after[unit] == (FileView { text: description, private: true })
            &&& !after.contains_key(draft)
            &&& after.contains_key(definition)
            &&& after[definition].text == definition_text(
                sup,
                log_path_in(dir, name),
                name,
                host,
            )
            &&& forall|path: Seq<char>|
                path != unit && path != draft && path != definition ==> #[trigger] same_at(
                    files,
                    after,
                    path,
                )
        }),
{
    let keep = keep_script(dir, name, description);
    let start = sup.install_script(home, log_path_in(dir, name), name, host);
    effects_follow(files, keep, start);
    keeping_stores_the_description(files, dir, name, description);
    starting_writes_the_definition(
        after_steps(files, keep),
        home,
        log_path_in(dir, name),
        sup,
        name,
        host,
    );
    paths_end_as_files_do(dir, home, sup, name);
}

/// At no moment of an install is the description in a file that others can open,
/// however far the install got and wherever it was broken off: such a file holds
/// nothing, or what it held before, or it is the definition of the unit, as far as
/// that is written.
pub proof fn installs_expose_no_description(
    files: Map<Seq<char>, FileView>,
    dir: Seq<char>,
    home: Seq<char>,
    sup: Supervisor,
    name: Seq<char>,
    host: Seq<char>,
    description: Seq<char>,
    n: int,
    left: Map<Seq<char>, FileView>,
    path: Seq<char>,
)
    requires
        0 <= n < whole_install(dir, home, sup, name, host, description).len(),
        may_leave(
            after_steps(files, whole_install(dir, home, sup, name, host, description).take(n)),
            whole_install(dir, home, sup, name, host, description)[n].action,
            left,
        ),
        left.contains_key(path),
        !left[path].private,
    ensures
        ({
            ||| left[path].text.len() == 0
            ||| files.contains_key(path) && files[path] == left[path]
            ||| path == sup.definition_path(home, name) && exists|m: int|
                left[path].text == #[trigger] definition_text(
                    sup,
                    log_path_in(dir, name),
                    name,
                    host,
                ).take(m)
        }),
{
    let keep = keep_script(dir, name, description);
    let start = sup.install_script(home, log_path_in(dir, name), name, host);
    let whole = whole_install(dir, home, sup, name, host, description);
    let text = definition_text(sup, log_path_in(dir, name), name, host);
    assert(text.take(text.len() as int) =~= text);
    if n < keep.len() {
        assert(whole.take(n) =~= keep.take(n));
        assert(whole[n] == keep[n]);
        descriptions_are_never_readable(files, dir, name, description, n, left, path);
    } else {
        let k = n - keep.len();
        let kept = after_steps(files, keep);
        assert(whole.take(n) =~= keep + start.take(k));
        assert(whole[n] == start[k]);
        effects_follow(files, keep, start.take(k));
        keeping_stores_the_description(files, dir, name, description);
        assert(start.take(0) =~= Seq::<StepView>::empty());
        one_step_more(kept, start, 0);
        one_step_more(kept, start, 1);
        one_step_more(kept, start, 2);
        one_step_more(kept, start, 3);
    }
}

/// Installing an agent again replaces it: the files are those of the second
/// install alone. Nothing of the first description is left, and no draft.
pub proof fn installing_again_replaces(
    files: Map<Seq<char>, FileView>,
    dir: Seq<char>,
    home: Seq<char>,
    sup: Supervisor,
    name: Seq<char>,
    host: Seq<char>,
    first: Seq<char>,
    second: Seq<char>,
)
    ensures
        after_steps(
            after_steps(files, whole_install(dir, home, sup, name, host, first)),
            whole_install(dir, home, sup, name, host, second),
        ) == after_steps(files, whole_install(dir, home, sup, name, host, second)),
{
    let once = after_steps(files, whole_install(dir, home, sup, name, host, first));
    let log = log_path_in(dir, name);
    let start = sup.install_script(home, log, name, host);
    let kept = after_steps(files, keep_script(dir, name, first));
    let again = after_steps(once, keep_script(dir, name, second));
    let alone = after_steps(files, keep_script(dir, name, second));
    paths_end_as_files_do(dir, home, sup, name);
    effects_follow(files, keep_script(dir, name, first), start);
    effects_follow(files, keep_script(dir, name, second), start);
    effects_follow(once, keep_script(dir, name, second), start);
    keeping_stores_the_description(files, dir, name, first);
    keeping_stores_the_description(files, dir, name, second);
    keeping_stores_the_description(once, dir, name, second);
    starting_writes_the_definition(kept, home, log, sup, name, host);
    starting_writes_the_definition(again, home, log, sup, name, host);
    starting_writes_the_definition(alone, home, log, sup, name, host);
    assert(after_steps(again, start) =~= after_steps(alone, start));
}

/// Installing an agent leaves the others alone: their descriptions, the definitions
/// of their units and all logs are as they were.
pub proof fn installing_leaves_others_alone(
    files: Map<Seq<char>, FileView>,
    dir: Seq<char>,
    home: Seq<char>,
    sup: Supervisor,
    name: Seq<char>,
    host: Seq<char>,
    description: Seq<char>,
    other: Seq<char>,
)
    requires
        is_name(name),
        is_name(other),
        name != other,
    ensures
        ({
            let after = after_steps(files, whole_install(dir, home, sup, name, host, description));
            &&& same_at(files, after, unit_path_in(dir, other))
            &&& same_at(files, after, sup.definition_path(home, other))
            &&& same_at(files, after, log_path_in(dir, other))
            &&& same_at(files, after, log_path_in(dir, name))
        }),
{
    installing_stores_the_description(files, dir, home, sup, name, host, description);
    paths_end_as_files_do(dir, home, sup, name);
    paths_end_as_files_do(dir, home, sup, other);
    files_tell_names_apart(dir, name, other);
    units_tell_names_apart(sup, home, name, other);
}

// Removing.

/// However far the removing of an agent got, it has touched nothing but the
/// definition of the agent's unit and, last of all, its description; and once it
/// is through, both are gone.
pub proof fn removing_forgets_one_agent(
    files: Map<Seq<char>, FileView>,
    name: Seq<char>,
    s: Surroundings,
    n: int,
)
    requires
        s.home is Some,
        0 <= n <= forget_script(name, s).len(),
    ensures
        ({
            let after = after_steps(files, forget_script(name, s).take(n));
            let unit = unit_path_in(state_of(s)->0, name);
            let definition = supervisor_of(s).definition_path((s.home->0)@, name);
            &&& forall|path: Seq<char>|
                path != unit && path != definition ==> #[trigger] same_at(files, after, path)
            &&& n < forget_script(name, s).len() ==> same_at(files, after, unit)
            &&& n == forget_script(name, s).len() ==> !after.contains_key(unit)
                && !after.contains_key(definition)
        }),
{
    let steps = forget_script(name, s);
    let dir = state_of(s)->0;
    paths_end_as_files_do(dir, (s.home->0)@, supervisor_of(s), name);
    assert(steps.take(0) =~= Seq::<StepView>::empty());
    one_step_more(files, steps, 0);
    one_step_more(files, steps, 1);
    one_step_more(files, steps, 2);
    if steps.len() > 3 {
        one_step_more(files, steps, 3);
    }
}

/// Removing an agent keeps its log and leaves the others alone, however far it got:
/// their descriptions, the definitions of their units and all logs are as they
/// were.
pub proof fn removing_keeps_the_rest(
    files: Map<Seq<char>, FileView>,
    name: Seq<char>,
    s: Surroundings,
    n: int,
    other: Seq<char>,
)
    requires
        is_name(name),
        is_name(other),
        name != other,
        s.home is Some,
        0 <= n <= forget_script(name, s).len(),
    ensures
        ({
            let after = after_steps(files, forget_script(name, s).take(n));
            let dir = state_of(s)->0;
            &&& same_at(files, after, log_path_in(dir, name))
            &&& same_at(files, after, log_path_in(dir, other))
            &&& same_at(files, after, unit_path_in(dir, other))
            &&& same_at(files, after, supervisor_of(s).definition_path((s.home->0)@, other))
        }),
{
    let dir = state_of(s)->0;
    let home = (s.home->0)@;
    removing_forgets_one_agent(files, name, s, n);
    paths_end_as_files_do(dir, home, supervisor_of(s), name);
    paths_end_as_files_do(dir, home, supervisor_of(s), other);
    files_tell_names_apart(dir, name, other);
    units_tell_names_apart(supervisor_of(s), home, name, other);
}

/// Removing an agent that was installed leaves none of the files that installing
/// left, and removing it again changes nothing.
pub proof fn removing_undoes_installing(
    files: Map<Seq<char>, FileView>,
    name: Seq<char>,
    s: Surroundings,
    host: Seq<char>,
    description: Seq<char>,
)
    requires
        s.home is Some,
    ensures
        ({
            let dir = state_of(s)->0;
            let home = (s.home->0)@;
            let sup = supervisor_of(s);
            let installed = after_steps(
                files,
                whole_install(dir, home, sup, name, host, description),
            );
            let removed = after_steps(installed, forget_script(name, s));
            &&& removed == files.remove(unit_path_in(dir, name)).remove(
                sup.definition_path(home, name),
            ).remove(draft_path(dir, name))
            &&& after_steps(removed, forget_script(name, s)) == removed
        }),
{
    let dir = state_of(s)->0;
    let home = (s.home->0)@;
    let sup = supervisor_of(s);
    let steps = forget_script(name, s);
    let installed = after_steps(files, whole_install(dir, home, sup, name, host, description));
    let removed = after_steps(installed, steps);
    installing_stores_the_description(files, dir, home, sup, name, host, description);
    removing_forgets_one_agent(installed, name, s, steps.len() as int);
    removing_forgets_one_agent(removed, name, s, steps.len() as int);
    assert(steps.take(steps.len() as int) =~= steps);
    let cleared = files.remove(unit_path_in(dir, name)).remove(
        sup.definition_path(home, name),
    ).remove(draft_path(dir, name));
    assert forall|path: Seq<char>| removed.contains_key(path) == #[trigger] cleared.contains_key(
        path,
    ) && (cleared.contains_key(path) ==> removed[path] == cleared[path]) by {
        if path != unit_path_in(dir, name) && path != sup.definition_path(home, name) {
            assert(same_at(installed, removed, path));
            if path != draft_path(dir, name) {
                assert(same_at(files, installed, path));
            }
        }
    }
    assert(removed =~= cleared);
    let twice = after_steps(removed, steps);
    assert forall|path: Seq<char>| twice.contains_key(path) == #[trigger] removed.contains_key(
        path,
    ) && (removed.contains_key(path) ==> twice[path] == removed[path]) by {
        if path != unit_path_in(dir, name) && path != sup.definition_path(home, name) {
            assert(same_at(removed, twice, path));
        }
    }
    assert(twice =~= removed);
}

} // verus!
