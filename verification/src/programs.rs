//! Programs: where they are looked for, and the search path that an agent gets.

use vstd::prelude::*;
use vstd::string::*;

use crate::files::{
    answered, below, can_look, join_path, search, searched, searches_end_at_the_first,
};
use crate::lists::{
    has_text, join_texts, joined, parts_hold_no_separator, split, split_is_not_empty, split_text,
    split_texts_follow, splitting_undoes_joining, texts,
};
use crate::machine::{home, text_in, HostError, Surroundings};
use crate::text::chars_of;

verus! {

// Looking for programs.

/// Where `buzz-acp` may be.
pub open spec fn acp_places(home: Seq<char>) -> Seq<Seq<char>> {
    seq![
        below(home, ".local/bin/buzz-acp"@),
        "/usr/local/bin/buzz-acp"@,
        "/opt/homebrew/bin/buzz-acp"@,
        "/Applications/Buzz.app/Contents/MacOS/buzz-acp"@,
        "/usr/bin/buzz-acp"@,
    ]
}

/// Whether a search for `buzz-acp` may have ended like this: where
/// `BUZZ_ACP_BIN` says, if it says anything, and otherwise at the first of the
/// usual places that has a file.
pub open spec fn found_acp<F: Fn(&str) -> bool>(
    s: Surroundings,
    is_file: F,
    r: Result<String, HostError>,
) -> bool {
    match s.acp {
        Some(path) => match r {
            Ok(found) => answered(is_file, path@, true) && found@ == path@,
            Err(HostError::NotAFile(refused)) => answered(is_file, path@, false) && refused@
                == path@,
            Err(_) => false,
        },
        None => match s.home {
            None => r == Err::<String, HostError>(HostError::NoHome),
            Some(home) => exists|found: Option<int>| #[trigger]
                searched(is_file, acp_places(home@), found) && match r {
                    Ok(path) => found is Some && path@ == acp_places(home@)[found->0],
                    Err(HostError::NoAcp(places)) => found is None && texts(places@) == acp_places(
                        home@,
                    ),
                    Err(_) => false,
                },
        },
    }
}

/// Where `buzz-acp` is, without trusting the search path.
pub fn find_buzz_acp<F: Fn(&str) -> bool>(s: &Surroundings, is_file: &F) -> (r: Result<
    String,
    HostError,
>)
    requires
        can_look(*is_file),
    ensures
        found_acp(*s, *is_file, r),
{
    if let Some(path) = &s.acp {
        if is_file(path.as_str()) {
            return Ok(path.clone());
        }
        return Err(HostError::NotAFile(path.clone()));
    }
    let home = match home(s) {
        Ok(home) => home,
        Err(e) => {
            return Err(e);
        },
    };
    let mut places: Vec<String> = Vec::new();
    places.push(join_path(home.as_str(), ".local/bin/buzz-acp"));
    places.push("/usr/local/bin/buzz-acp".to_owned());
    places.push("/opt/homebrew/bin/buzz-acp".to_owned());
    places.push("/Applications/Buzz.app/Contents/MacOS/buzz-acp".to_owned());
    places.push("/usr/bin/buzz-acp".to_owned());
    assert(texts(places@) =~= acp_places(home@));
    match search(&places, is_file) {
        Some(i) => {
            assert(searched(*is_file, acp_places(home@), Some(i as int)));
            Ok(places[i].clone())
        },
        None => {
            assert(searched(*is_file, acp_places(home@), None));
            Err(HostError::NoAcp(places))
        },
    }
}

/// Whether a file can be executed by someone: a file that cannot fails to spawn
/// as one that is missing does.
pub fn is_executable(is_file: bool, mode: u32) -> (r: bool)
    ensures
        r == (is_file && mode & 0o111 != 0),
        r == (is_file && (mode & 0o100 != 0 || mode & 0o010 != 0 || mode & 0o001 != 0)),
{
    assert(mode & 0o111 != 0 <==> (mode & 0o100 != 0 || mode & 0o010 != 0 || mode & 0o001 != 0))
        by (bit_vector);
    is_file && mode & 0o111 != 0
}

/// The paths of a program below some directories.
pub open spec fn below_each(dirs: Seq<Seq<char>>, bin: Seq<char>) -> Seq<Seq<char>>
    decreases dirs.len(),
{
    if dirs.len() == 0 {
        dirs
    } else {
        let before = below_each(dirs.drop_last(), bin);
        if dirs.last().len() == 0 {
            before
        } else {
            before.push(below(dirs.last(), bin))
        }
    }
}

/// Where a program may be: an explicit path is used as given, and a bare name is
/// looked for in each directory of a search path.
pub open spec fn program_places(bin: Seq<char>, path: Seq<char>) -> Seq<Seq<char>> {
    if bin.contains('/') {
        seq![bin]
    } else {
        below_each(split(path, ':'), bin)
    }
}

/// Where a program may be.
fn places_of(bin: &str, path: &str) -> (r: Vec<String>)
    ensures
        texts(r@) == program_places(bin@, path@),
{
    let cs = chars_of(bin);
    let mut i: usize = 0;
    while i < cs.len()
        invariant
            i <= cs.len(),
            cs@ == bin@,
            forall|j: int| 0 <= j < i ==> bin@[j] != '/',
        decreases cs.len() - i,
    {
        if cs[i] == '/' {
            assert(bin@[i as int] == '/');
            let mut only: Vec<String> = Vec::new();
            only.push(bin.to_owned());
            assert(texts(only@) =~= seq![bin@]);
            return only;
        }
        i += 1;
    }
    let dirs = split_text(path, ':');
    let ghost all = texts(dirs@);
    let mut r: Vec<String> = Vec::new();
    let mut n: usize = 0;
    assert(all.take(0) =~= texts(r@));
    while n < dirs.len()
        invariant
            n <= dirs.len(),
            all == texts(dirs@),
            texts(r@) == below_each(all.take(n as int), bin@),
        decreases dirs.len() - n,
    {
        assert(all.take(n + 1).drop_last() =~= all.take(n as int));
        let ghost before = texts(r@);
        if !dirs[n].as_str().is_empty() {
            let place = join_path(dirs[n].as_str(), bin);
            let ghost added = place@;
            r.push(place);
            assert(texts(r@) =~= before.push(added));
        }
        n += 1;
    }
    assert(all.take(all.len() as int) =~= all);
    r
}

/// Find a program on a search path, the way `exec` would.
pub fn resolve_on_path<F: Fn(&str) -> bool>(bin: &str, path: &str, executable: &F) -> (r: Option<
    String,
>)
    requires
        can_look(*executable),
    ensures
        exists|found: Option<int>| #[trigger]
            searched(*executable, program_places(bin@, path@), found) && match r {
                Some(place) => found is Some && place@ == program_places(bin@, path@)[found->0],
                None => found is None,
            },
{
    let places = places_of(bin, path);
    match search(&places, executable) {
        Some(i) => {
            assert(searched(*executable, texts(places@), Some(i as int)));
            Some(places[i].clone())
        },
        None => {
            assert(searched(*executable, texts(places@), None));
            None
        },
    }
}

// The search path of an agent.

/// The directories of programs that every machine has.
pub open spec fn usual_dirs() -> Seq<Seq<char>> {
    seq![
        "/opt/homebrew/bin"@,
        "/usr/local/bin"@,
        "/usr/bin"@,
        "/bin"@,
        "/usr/sbin"@,
        "/sbin"@,
    ]
}

/// The user's own directories of programs.
pub open spec fn own_dirs(home: Option<Seq<char>>) -> Seq<Seq<char>> {
    match home {
        Some(home) => seq![below(home, ".local/bin"@), below(home, "bin"@)],
        None => Seq::empty(),
    }
}

/// The directories of programs behind the user's own: those that every machine
/// has, and then those of the search path that the supervisor supplied.
pub open spec fn other_dirs(inherited: Option<Seq<char>>) -> Seq<Seq<char>> {
    match inherited {
        Some(path) => usual_dirs() + split(path, ':'),
        None => usual_dirs(),
    }
}

/// Some directories, and after them those of others that are new and not empty.
pub open spec fn with_new(dirs: Seq<Seq<char>>, others: Seq<Seq<char>>) -> Seq<Seq<char>>
    decreases others.len(),
{
    if others.len() == 0 {
        dirs
    } else {
        let before = with_new(dirs, others.drop_last());
        if others.last().len() == 0 || before.contains(others.last()) {
            before
        } else {
            before.push(others.last())
        }
    }
}

/// The directories of an agent's search path, none of them twice.
pub open spec fn path_dirs(home: Option<Seq<char>>, inherited: Option<Seq<char>>) -> Seq<
    Seq<char>,
> {
    with_new(own_dirs(home), other_dirs(inherited))
}

/// An agent's search path.
pub open spec fn path_of(home: Option<Seq<char>>, inherited: Option<Seq<char>>) -> Seq<char> {
    joined(path_dirs(home, inherited), ":"@)
}

/// The search path that an agent gets: the usual places of installed programs,
/// then whatever the supervisor supplied. The user's own directories come first,
/// so that a copy there wins over one of the system.
pub fn default_path(s: &Surroundings) -> (r: String)
    ensures
        r@ == path_of(text_in(s.home), text_in(s.path)),
{
    let mut dirs: Vec<String> = Vec::new();
    if let Some(home) = &s.home {
        dirs.push(join_path(home.as_str(), ".local/bin"));
        dirs.push(join_path(home.as_str(), "bin"));
    }
    let ghost own = own_dirs(text_in(s.home));
    assert(texts(dirs@) =~= own);
    let mut others = vec![
        "/opt/homebrew/bin".to_owned(),
        "/usr/local/bin".to_owned(),
        "/usr/bin".to_owned(),
        "/bin".to_owned(),
        "/usr/sbin".to_owned(),
        "/sbin".to_owned(),
    ];
    if let Some(path) = &s.path {
        let mut inherited = split_text(path.as_str(), ':');
        others.append(&mut inherited);
    }
    let ghost all = texts(others@);
    assert(all =~= other_dirs(text_in(s.path)));
    let mut i: usize = 0;
    assert(all.take(0) =~= Seq::<Seq<char>>::empty());
    while i < others.len()
        invariant
            i <= others.len(),
            all == texts(others@),
            texts(dirs@) == with_new(own, all.take(i as int)),
        decreases others.len() - i,
    {
        assert(all.take(i + 1).drop_last() =~= all.take(i as int));
        let ghost before = texts(dirs@);
        if !others[i].as_str().is_empty() && !has_text(&dirs, others[i].as_str()) {
            dirs.push(others[i].clone());
            assert(texts(dirs@) =~= before.push(all[i as int]));
        }
        i += 1;
    }
    assert(all.take(all.len() as int) =~= all);
    join_texts(&dirs, ":")
}

// What holds of the search path.

/// The user's own directories lead an agent's search path, as they are.
pub proof fn own_dirs_lead(home: Option<Seq<char>>, inherited: Option<Seq<char>>)
    ensures
        path_dirs(home, inherited).len() >= own_dirs(home).len(),
        path_dirs(home, inherited).take(own_dirs(home).len() as int) == own_dirs(home),
{
    new_dirs_follow(own_dirs(home), other_dirs(inherited));
}

proof fn new_dirs_follow(dirs: Seq<Seq<char>>, others: Seq<Seq<char>>)
    ensures
        with_new(dirs, others).len() >= dirs.len(),
        with_new(dirs, others).take(dirs.len() as int) == dirs,
    decreases others.len(),
{
    if others.len() > 0 {
        new_dirs_follow(dirs, others.drop_last());
        let before = with_new(dirs, others.drop_last());
        assert(before.push(others.last()).take(dirs.len() as int) =~= before.take(
            dirs.len() as int,
        ));
    } else {
        assert(dirs.take(dirs.len() as int) =~= dirs);
    }
}

/// Nothing is lost: every directory that every machine has, and every one that
/// the supervisor supplied, is on an agent's search path.
pub proof fn other_dirs_are_kept(
    home: Option<Seq<char>>,
    inherited: Option<Seq<char>>,
    dir: Seq<char>,
)
    requires
        other_dirs(inherited).contains(dir),
        dir.len() > 0,
    ensures
        path_dirs(home, inherited).contains(dir),
{
    new_dirs_are_added(own_dirs(home), other_dirs(inherited), dir);
}

proof fn new_dirs_are_added(dirs: Seq<Seq<char>>, others: Seq<Seq<char>>, dir: Seq<char>)
    requires
        others.contains(dir),
        dir.len() > 0,
    ensures
        with_new(dirs, others).contains(dir),
    decreases others.len(),
{
    let before = with_new(dirs, others.drop_last());
    if others.last() == dir {
        assert(before.push(dir).last() == dir);
        assert(before.push(dir).contains(before.push(dir)[before.len() as int]));
    } else {
        let i = others.index_of(dir);
        assert(others.drop_last()[i] == dir);
        new_dirs_are_added(dirs, others.drop_last(), dir);
        let j = before.index_of(dir);
        assert(before.push(others.last())[j] == dir);
    }
}

proof fn usual_dirs_hold_no_colon()
    ensures
        forall|i: int| 0 <= i < usual_dirs().len() ==> !(#[trigger] usual_dirs()[i]).contains(':'),
{
    reveal_strlit("/opt/homebrew/bin");
    reveal_strlit("/usr/local/bin");
    reveal_strlit("/usr/bin");
    reveal_strlit("/bin");
    reveal_strlit("/usr/sbin");
    reveal_strlit("/sbin");
}

proof fn below_holds_no_colon(dir: Seq<char>, path: Seq<char>)
    requires
        !dir.contains(':'),
        !path.contains(':'),
    ensures
        !below(dir, path).contains(':'),
{
    reveal_strlit("/");
    let p = below(dir, path);
    assert forall|i: int| 0 <= i < p.len() implies p[i] != ':' by {
        let lead = p.len() - path.len();
        if i >= lead {
            assert(path.contains(path[i - lead]));
        } else if i < dir.len() {
            assert(dir.contains(dir[i]));
        }
    }
}

proof fn new_dirs_hold_no_colon(dirs: Seq<Seq<char>>, others: Seq<Seq<char>>)
    requires
        forall|i: int| 0 <= i < dirs.len() ==> !(#[trigger] dirs[i]).contains(':'),
        forall|i: int| 0 <= i < others.len() ==> !(#[trigger] others[i]).contains(':'),
    ensures
        forall|i: int|
            0 <= i < with_new(dirs, others).len() ==> !(#[trigger] with_new(dirs, others)[i]).contains(
                ':',
            ),
    decreases others.len(),
{
    if others.len() > 0 {
        let before = with_new(dirs, others.drop_last());
        new_dirs_hold_no_colon(dirs, others.drop_last());
        let all = with_new(dirs, others);
        assert forall|i: int| 0 <= i < all.len() implies !(#[trigger] all[i]).contains(':') by {
            if i < before.len() {
                assert(all[i] == before[i]);
            } else {
                assert(all[i] == others[others.len() - 1]);
            }
        }
    }
}

/// An agent's search path splits into its directories, where the home directory
/// can stand on a search path at all.
pub proof fn path_splits_into_its_dirs(home: Option<Seq<char>>, inherited: Option<Seq<char>>)
    requires
        home matches Some(h) ==> !h.contains(':'),
    ensures
        split(path_of(home, inherited), ':') == path_dirs(home, inherited),
{
    let own = own_dirs(home);
    let others = other_dirs(inherited);
    usual_dirs_hold_no_colon();
    if let Some(h) = home {
        reveal_strlit(".local/bin");
        reveal_strlit("bin");
        below_holds_no_colon(h, ".local/bin"@);
        below_holds_no_colon(h, "bin"@);
    }
    if let Some(path) = inherited {
        parts_hold_no_separator(path, ':');
    }
    assert forall|i: int| 0 <= i < others.len() implies !(#[trigger] others[i]).contains(':') by {
        if i < usual_dirs().len() {
            assert(others[i] == usual_dirs()[i]);
        } else {
            assert(others[i] == split(inherited->0, ':')[i - usual_dirs().len()]);
        }
    }
    new_dirs_hold_no_colon(own, others);
    reveal_strlit("/bin");
    assert(usual_dirs()[3] == "/bin"@);
    assert(others[3] == "/bin"@);
    assert(others.contains("/bin"@));
    other_dirs_are_kept(home, inherited, "/bin"@);
    reveal_strlit(":");
    assert(":"@ =~= seq![':']);
    splitting_undoes_joining(path_dirs(home, inherited), ':');
}

/// An agent's search path names no directory twice, where the home directory can
/// stand on a search path at all.
pub proof fn path_has_no_duplicates(home: Option<Seq<char>>, inherited: Option<Seq<char>>)
    requires
        home matches Some(h) ==> !h.contains(':'),
    ensures
        split(path_of(home, inherited), ':').no_duplicates(),
{
    path_splits_into_its_dirs(home, inherited);
    reveal_strlit(".local/bin");
    reveal_strlit("bin");
    let own = own_dirs(home);
    assert(home is Some ==> own[0].len() != own[1].len());
    assert(own.no_duplicates());
    new_dirs_are_distinct(own, other_dirs(inherited));
}

proof fn new_dirs_are_distinct(dirs: Seq<Seq<char>>, others: Seq<Seq<char>>)
    requires
        dirs.no_duplicates(),
    ensures
        with_new(dirs, others).no_duplicates(),
    decreases others.len(),
{
    if others.len() > 0 {
        new_dirs_are_distinct(dirs, others.drop_last());
    }
}

proof fn own_dir_is_not_usual(home: Seq<char>)
    ensures
        !usual_dirs().contains(below(home, ".local/bin"@)),
{
    reveal_strlit(".local/bin");
    reveal_strlit("/opt/homebrew/bin");
    reveal_strlit("/usr/local/bin");
    reveal_strlit("/usr/bin");
    reveal_strlit("/bin");
    reveal_strlit("/usr/sbin");
    reveal_strlit("/sbin");
    let own = below(home, ".local/bin"@);
    assert(own.len() >= 10);
    assert(own[own.len() - 10] == '.');
    assert forall|i: int| 0 <= i < usual_dirs().len() implies usual_dirs()[i] != own by {
        let dir = usual_dirs()[i];
        if dir.len() >= 10 {
            assert(dir[dir.len() - 10] != '.');
        }
    }
}

/// The user's own directory leads an agent's search path, before any that every
/// machine has.
pub proof fn own_dir_leads(home: Seq<char>, inherited: Option<Seq<char>>)
    requires
        !home.contains(':'),
    ensures
        split(path_of(Some(home), inherited), ':').first() == below(home, ".local/bin"@),
        forall|i: int|
            0 <= i < split(path_of(Some(home), inherited), ':').len() && usual_dirs().contains(
                #[trigger] split(path_of(Some(home), inherited), ':')[i],
            ) ==> 0 < i,
{
    path_splits_into_its_dirs(Some(home), inherited);
    own_dirs_lead(Some(home), inherited);
    let dirs = path_dirs(Some(home), inherited);
    assert(dirs[0] == dirs.take(own_dirs(Some(home)).len() as int)[0]);
    own_dir_is_not_usual(home);
}

/// The user's own copy of a program wins: on an agent's search path it is looked
/// for before any other.
pub proof fn own_programs_win(home: Seq<char>, inherited: Option<Seq<char>>, bin: Seq<char>)
    requires
        !home.contains(':'),
        !bin.contains('/'),
    ensures
        program_places(bin, path_of(Some(home), inherited)).len() > 0,
        program_places(bin, path_of(Some(home), inherited))[0] == below(
            below(home, ".local/bin"@),
            bin,
        ),
{
    own_dir_leads(home, inherited);
    split_is_not_empty(path_of(Some(home), inherited), ':');
    reveal_strlit(".local/bin");
    first_place(split(path_of(Some(home), inherited), ':'), bin);
}

proof fn first_place(dirs: Seq<Seq<char>>, bin: Seq<char>)
    requires
        dirs.len() > 0,
        dirs[0].len() > 0,
    ensures
        below_each(dirs, bin).len() > 0,
        below_each(dirs, bin)[0] == below(dirs[0], bin),
    decreases dirs.len(),
{
    if dirs.len() > 1 {
        first_place(dirs.drop_last(), bin);
    } else {
        assert(below_each(dirs.drop_last(), bin) =~= Seq::<Seq<char>>::empty());
    }
}

/// A bare name is looked for in the directories of a search path, in order, but for
/// empty ones: along two search paths one after the other it is looked for along the
/// one and then along the other, and in a single directory it is below it.
pub proof fn bare_names_are_looked_for_in_order(bin: Seq<char>, a: Seq<char>, b: Seq<char>)
    requires
        !bin.contains('/'),
    ensures
        program_places(bin, a + seq![':'] + b) == program_places(bin, a) + program_places(bin, b),
        !a.contains(':') ==> program_places(bin, a) == if a.len() == 0 {
            Seq::<Seq<char>>::empty()
        } else {
            seq![below(a, bin)]
        },
{
    split_texts_follow(a, b, ':');
    places_follow(split(a, ':'), split(b, ':'), bin);
    if !a.contains(':') {
        assert(split(a, ':') =~= seq![a]);
        assert(seq![a].drop_last() =~= Seq::<Seq<char>>::empty());
        assert(below_each(seq![a].drop_last(), bin) =~= Seq::<Seq<char>>::empty());
        assert(program_places(bin, a) =~= if a.len() == 0 {
            Seq::<Seq<char>>::empty()
        } else {
            seq![below(a, bin)]
        });
    }
}

proof fn places_follow(a: Seq<Seq<char>>, b: Seq<Seq<char>>, bin: Seq<char>)
    ensures
        below_each(a + b, bin) == below_each(a, bin) + below_each(b, bin),
    decreases b.len(),
{
    if b.len() == 0 {
        assert(a + b =~= a);
        assert(below_each(a, bin) + below_each(b, bin) =~= below_each(a, bin));
    } else {
        places_follow(a, b.drop_last(), bin);
        assert((a + b).drop_last() =~= a + b.drop_last());
        assert((a + b).last() == b.last());
        assert(below_each(a + b, bin) =~= below_each(a, bin) + below_each(b, bin));
    }
}

/// A bare name is looked for below every directory of a search path, and nowhere
/// else; a path is looked at as it is, and nothing else.
pub proof fn programs_are_looked_for_on_the_whole_path(
    bin: Seq<char>,
    path: Seq<char>,
    dir: Seq<char>,
)
    ensures
        bin.contains('/') ==> program_places(bin, path) == seq![bin],
        !bin.contains('/') && split(path, ':').contains(dir) && dir.len() > 0 ==> program_places(
            bin,
            path,
        ).contains(below(dir, bin)),
        !bin.contains('/') ==> forall|i: int|
            0 <= i < program_places(bin, path).len() ==> exists|d: Seq<char>|
                split(path, ':').contains(d) && d.len() > 0 && #[trigger] program_places(
                    bin,
                    path,
                )[i] == #[trigger] below(d, bin),
{
    let dirs = split(path, ':');
    if dirs.contains(dir) && dir.len() > 0 {
        every_dir_has_its_place(dirs, bin, dir);
    }
    every_place_has_its_dir(dirs, bin);
}

proof fn every_dir_has_its_place(dirs: Seq<Seq<char>>, bin: Seq<char>, dir: Seq<char>)
    requires
        dirs.contains(dir),
        dir.len() > 0,
    ensures
        below_each(dirs, bin).contains(below(dir, bin)),
    decreases dirs.len(),
{
    let before = below_each(dirs.drop_last(), bin);
    if dirs.last() == dir {
        assert(below_each(dirs, bin)[before.len() as int] == below(dir, bin));
    } else {
        let i = dirs.index_of(dir);
        assert(dirs.drop_last()[i] == dir);
        every_dir_has_its_place(dirs.drop_last(), bin, dir);
        let j = before.index_of(below(dir, bin));
        assert(below_each(dirs, bin)[j] == below(dir, bin));
    }
}

proof fn every_place_has_its_dir(dirs: Seq<Seq<char>>, bin: Seq<char>)
    ensures
        forall|i: int|
            0 <= i < below_each(dirs, bin).len() ==> exists|d: Seq<char>|
                dirs.contains(d) && d.len() > 0 && #[trigger] below_each(dirs, bin)[i]
                    == #[trigger] below(d, bin),
    decreases dirs.len(),
{
    if dirs.len() > 0 {
        let front = dirs.drop_last();
        every_place_has_its_dir(front, bin);
        let all = below_each(dirs, bin);
        assert forall|i: int| 0 <= i < all.len() implies exists|d: Seq<char>|
            dirs.contains(d) && d.len() > 0 && #[trigger] all[i] == #[trigger] below(d, bin) by {
            if i < below_each(front, bin).len() {
                assert(all[i] == below_each(front, bin)[i]);
                let d = choose|d: Seq<char>|
                    front.contains(d) && d.len() > 0 && below_each(front, bin)[i]
                        == #[trigger] below(d, bin);
                let j = front.index_of(d);
                assert(dirs[j] == d);
                assert(all[i] == below(d, bin));
            } else {
                assert(dirs[dirs.len() - 1] == dirs.last());
                assert(all[i] == below(dirs.last(), bin));
            }
        }
    }
}

/// On an agent's search path there are, with nothing else: the user's own two
/// directories, those that every machine has, and those of the inherited search
/// path.
pub proof fn search_paths_hold_these(
    home: Option<Seq<char>>,
    inherited: Option<Seq<char>>,
    dir: Seq<char>,
)
    requires
        home matches Some(h) ==> !h.contains(':'),
        dir.len() > 0,
    ensures
        split(path_of(home, inherited), ':').contains(dir) <==> {
            ||| home matches Some(h) && (dir == below(h, ".local/bin"@) || dir == below(h, "bin"@))
            ||| dir == "/opt/homebrew/bin"@
            ||| dir == "/usr/local/bin"@
            ||| dir == "/usr/bin"@
            ||| dir == "/bin"@
            ||| dir == "/usr/sbin"@
            ||| dir == "/sbin"@
            ||| inherited matches Some(path) && split(path, ':').contains(dir)
        },
{
    path_splits_into_its_dirs(home, inherited);
    let dirs = path_dirs(home, inherited);
    let own = own_dirs(home);
    let others = other_dirs(inherited);
    let usual = usual_dirs();
    own_dirs_lead(home, inherited);
    if own.contains(dir) {
        let i = own.index_of(dir);
        assert(dirs.take(own.len() as int)[i] == dir);
        assert(dirs[i] == dir);
    }
    if let Some(h) = home {
        assert(own[0] == below(h, ".local/bin"@) && own[1] == below(h, "bin"@));
        assert(own.contains(own[0]) && own.contains(own[1]));
    }
    assert(usual[0] == "/opt/homebrew/bin"@ && usual[1] == "/usr/local/bin"@ && usual[2]
        == "/usr/bin"@ && usual[3] == "/bin"@ && usual[4] == "/usr/sbin"@ && usual[5] == "/sbin"@);
    assert forall|i: int| 0 <= i < 6 implies others.contains(#[trigger] usual[i]) by {
        assert(others[i] == usual[i]);
    }
    if let Some(path) = inherited {
        if split(path, ':').contains(dir) {
            let i = split(path, ':').index_of(dir);
            assert(others[i + 6] == dir);
        }
    }
    if others.contains(dir) {
        other_dirs_are_kept(home, inherited, dir);
    }
    if dirs.contains(dir) {
        new_dirs_come_from_somewhere(own, others, dir);
        if others.contains(dir) {
            let i = others.index_of(dir);
            if i >= 6 {
                assert(split(inherited->0, ':')[i - 6] == dir);
            } else {
                assert(usual[i] == dir);
            }
        }
    }
}

proof fn new_dirs_come_from_somewhere(
    dirs: Seq<Seq<char>>,
    others: Seq<Seq<char>>,
    dir: Seq<char>,
)
    requires
        with_new(dirs, others).contains(dir),
    ensures
        dirs.contains(dir) || others.contains(dir),
    decreases others.len(),
{
    if others.len() > 0 {
        let before = with_new(dirs, others.drop_last());
        let i = with_new(dirs, others).index_of(dir);
        if i < before.len() {
            assert(before[i] == dir);
            new_dirs_come_from_somewhere(dirs, others.drop_last(), dir);
            if others.drop_last().contains(dir) {
                let j = others.drop_last().index_of(dir);
                assert(others[j] == dir);
            }
        } else {
            assert(others[others.len() - 1] == dir);
        }
    }
}

/// What the supervisor supplied comes last: a longer inherited search path only adds
/// to the end of an agent's.
pub proof fn inherited_dirs_come_last(home: Option<Seq<char>>, a: Seq<char>, b: Seq<char>)
    ensures
        path_dirs(home, None).is_prefix_of(path_dirs(home, Some(a))),
        path_dirs(home, Some(a)).is_prefix_of(path_dirs(home, Some(a + seq![':'] + b))),
{
    split_texts_follow(a, b, ':');
    let own = own_dirs(home);
    more_dirs_come_last(own, usual_dirs(), split(a, ':'));
    more_dirs_come_last(own, usual_dirs() + split(a, ':'), split(b, ':'));
    assert(usual_dirs() + (split(a, ':') + split(b, ':')) =~= usual_dirs() + split(a, ':') + split(
        b,
        ':',
    ));
}

proof fn more_dirs_come_last(dirs: Seq<Seq<char>>, a: Seq<Seq<char>>, b: Seq<Seq<char>>)
    ensures
        with_new(dirs, a).is_prefix_of(with_new(dirs, a + b)),
    decreases b.len(),
{
    if b.len() == 0 {
        assert(a + b =~= a);
    } else {
        more_dirs_come_last(dirs, a, b.drop_last());
        assert((a + b).drop_last() =~= a + b.drop_last());
    }
}

/// Where `BUZZ_ACP_BIN` says where `buzz-acp` is, that is where it is, or nowhere;
/// and otherwise the user's own copy wins over any other.
pub proof fn chosen_and_own_copies_win<F: Fn(&str) -> bool>(
    s: Surroundings,
    is_file: F,
    r: Result<String, HostError>,
)
    requires
        found_acp(s, is_file, r),
    ensures
        r matches Ok(path) ==> answered(is_file, path@, true),
        s.acp matches Some(said) ==> match r {
            Ok(path) => path@ == said@,
            Err(_) => answered(is_file, said@, false),
        },
        s.acp is None && s.home is None ==> r is Err,
        s.acp is None && s.home is Some && !answered(
            is_file,
            below((s.home->0)@, ".local/bin/buzz-acp"@),
            false,
        ) ==> (r matches Ok(path) && path@ == below((s.home->0)@, ".local/bin/buzz-acp"@)),
        r matches Err(HostError::NoAcp(places)) ==> forall|i: int|
            0 <= i < places@.len() ==> answered(is_file, (#[trigger] places@[i])@, false),
{
    if s.acp is None && s.home is Some {
        let home = (s.home->0)@;
        let places = acp_places(home);
        let found = choose|found: Option<int>| #[trigger]
            searched(is_file, places, found) && match r {
                Ok(path) => found is Some && path@ == places[found->0],
                Err(HostError::NoAcp(named)) => found is None && texts(named@) == places,
                Err(_) => false,
            };
        searches_end_at_the_first(is_file, places, found, 0);
        if let Err(HostError::NoAcp(named)) = r {
            assert forall|i: int| 0 <= i < named@.len() implies answered(
                is_file,
                (#[trigger] named@[i])@,
                false,
            ) by {
                assert(texts(named@)[i] == named@[i]@);
                assert(answered(is_file, places[i], false));
            }
        }
    }
}

} // verus!
