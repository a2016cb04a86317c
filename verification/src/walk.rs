//! Walks through the directory that a release was unpacked to: one that looks
//! for the server, and one that makes its files executable.
//!
//! A walk keeps the directories that are still to be listed. Whoever reads the
//! disk takes the last of them, lists it and hands the entries in.

use crate::events::text_view;
use crate::paths::is_named_under;
use crate::platform::Platform;
use crate::text::{push_text, text_eq, texts};
use vstd::prelude::*;

verus! {

/// An entry of a directory.
#[derive(Debug, Clone, PartialEq)]
pub struct DirEntry {
    pub path: String,
    pub name: String,
    pub is_dir: bool,
    /// The permissions, where they could be read.
    pub mode: Option<u32>,
}

/// An entry of a directory, as the contracts speak of it.
pub struct EntryView {
    pub path: Seq<char>,
    pub name: Seq<char>,
    pub is_dir: bool,
    pub mode: Option<u32>,
}

impl View for DirEntry {
    type V = EntryView;

    open spec fn view(&self) -> EntryView {
        EntryView {
            path: self.path@,
            name: self.name@,
            is_dir: self.is_dir,
            mode: self.mode,
        }
    }
}

/// The entries, as the contracts speak of them.
pub open spec fn entry_views(entries: Seq<DirEntry>) -> Seq<EntryView> {
    entries.map_values(|entry: DirEntry| entry@)
}

/// The paths of the directories among `entries`, in order.
pub open spec fn directories(entries: Seq<EntryView>) -> Seq<Seq<char>>
    decreases entries.len(),
{
    if entries.len() == 0 {
        Seq::empty()
    } else if entries.last().is_dir {
        directories(entries.drop_last()).push(entries.last().path)
    } else {
        directories(entries.drop_last())
    }
}

// ----------------------------------------------------------------------------
// Looking for the server
// ----------------------------------------------------------------------------

/// The server is called `name`.
pub open spec fn is_server_name(name: Seq<char>, platform: Platform) -> bool {
    if platform == Platform::Windows {
        name == "sd-server.exe"@ || name == "sd-cpp-server.exe"@ || name == "server.exe"@
    } else {
        name == "sd-server"@ || name == "sd-cpp-server"@ || name == "server"@
    }
}

/// The command line tool is called `name`.
pub open spec fn is_tool_name(name: Seq<char>) -> bool {
    name == "sd"@ || name == "sd.exe"@ || name == "sd-cli"@ || name == "sd-cli.exe"@
}

/// The entry is a server.
pub open spec fn is_server(entry: EntryView, platform: Platform) -> bool {
    !entry.is_dir && is_server_name(entry.name, platform)
}

/// The entry is a command line tool, and not a server.
pub open spec fn is_tool(entry: EntryView, platform: Platform) -> bool {
    !entry.is_dir && !is_server_name(entry.name, platform) && is_tool_name(entry.name)
}

/// The place of the first server among `entries`; their number where there is
/// none.
pub open spec fn server_place(entries: Seq<EntryView>, platform: Platform) -> int
    decreases entries.len(),
{
    if entries.len() == 0 || is_server(entries.first(), platform) {
        0
    } else {
        1 + server_place(entries.drop_first(), platform)
    }
}

/// The path of the first server among `entries`.
pub open spec fn first_server(entries: Seq<EntryView>, platform: Platform) -> Option<Seq<char>> {
    let place = server_place(entries, platform);
    if 0 <= place < entries.len() {
        Some(entries[place].path)
    } else {
        None
    }
}

/// The path of the first command line tool among `entries`.
pub open spec fn first_tool(entries: Seq<EntryView>, platform: Platform) -> Option<Seq<char>>
    decreases entries.len(),
{
    if entries.len() == 0 {
        None
    } else {
        let earlier = first_tool(entries.drop_last(), platform);
        if earlier is None && is_tool(entries.last(), platform) {
            Some(entries.last().path)
        } else {
            earlier
        }
    }
}

/// The first there is of two.
pub open spec fn first_of<T>(a: Option<T>, b: Option<T>) -> Option<T> {
    if a is Some {
        a
    } else {
        b
    }
}

/// A search for the server.
#[derive(Debug, Clone, PartialEq)]
pub struct ServerSearch {
    /// The directories still to be listed; the last one comes next.
    pub pending: Vec<String>,
    /// The first command line tool seen.
    pub fallback: Option<String>,
    /// The server, once it is found.
    pub found: Option<String>,
}

impl ServerSearch {
    /// What the search comes to as it stands: the server, or else the command line
    /// tool.
    pub open spec fn result(&self) -> Option<Seq<char>> {
        first_of(text_view(self.found), text_view(self.fallback))
    }

    /// A search of the directory `dir` and all below it.
    pub fn new(dir: String) -> (search: ServerSearch)
        ensures
            search.pending@ == seq![dir],
            search.fallback is None,
            search.found is None,
    {
        ServerSearch { pending: vec![dir], fallback: None, found: None }
    }

    /// The directory to list next; none where the search is over.
    pub fn next_directory(&mut self) -> (dir: Option<String>)
        ensures
            final(self).fallback == old(self).fallback,
            final(self).found == old(self).found,
            dir is Some <==> old(self).found is None && old(self).pending@.len() > 0,
            dir is Some ==> dir->0 == old(self).pending@.last() && final(self).pending@
                == old(self).pending@.drop_last(),
            dir is None ==> final(self).pending@ == old(self).pending@,
    {
        if self.found.is_some() {
            return None;
        }
        self.pending.pop()
    }

    /// The executable to run: the server, or else the command line tool.
    pub fn into_executable(self) -> (executable: Option<String>)
        ensures
            text_view(executable) == self.result(),
    {
        if self.found.is_some() {
            self.found
        } else {
            self.fallback
        }
    }
}

proof fn lemma_server_place(entries: Seq<EntryView>, platform: Platform, n: int)
    requires
        0 <= n <= entries.len(),
        forall|i: int| 0 <= i < n ==> !is_server(entries[i], platform),
        n < entries.len() ==> is_server(entries[n], platform),
    ensures
        server_place(entries, platform) == n,
    decreases n,
{
    if n > 0 {
        lemma_server_place(entries.drop_first(), platform, n - 1);
    }
}

/// Whether the server is called `name`.
fn server_name(name: &str, platform: Platform) -> (yes: bool)
    ensures
        yes == is_server_name(name@, platform),
{
    if platform == Platform::Windows {
        text_eq(name, "sd-server.exe") || text_eq(name, "sd-cpp-server.exe") || text_eq(
            name,
            "server.exe",
        )
    } else {
        text_eq(name, "sd-server") || text_eq(name, "sd-cpp-server") || text_eq(name, "server")
    }
}

/// Whether the command line tool is called `name`.
fn tool_name(name: &str) -> (yes: bool)
    ensures
        yes == is_tool_name(name@),
{
    text_eq(name, "sd") || text_eq(name, "sd.exe") || text_eq(name, "sd-cli") || text_eq(
        name,
        "sd-cli.exe",
    )
}

/// How far a search has come: the server, once it is found, and the first command
/// line tool seen.
pub struct SearchView {
    pub found: Option<Seq<char>>,
    pub fallback: Option<Seq<char>>,
}

impl View for ServerSearch {
    type V = SearchView;

    open spec fn view(&self) -> SearchView {
        SearchView { found: text_view(self.found), fallback: text_view(self.fallback) }
    }
}

/// The entries that are looked at: those before the first server.
pub open spec fn looked_at(entries: Seq<EntryView>, platform: Platform) -> Seq<EntryView> {
    entries.take(server_place(entries, platform))
}

/// How far a search has come after it took `entries` in. Once the server is found
/// nothing changes.
pub open spec fn search_after(
    search: SearchView,
    entries: Seq<EntryView>,
    platform: Platform,
) -> SearchView {
    if search.found is Some {
        search
    } else {
        SearchView {
            found: first_server(entries, platform),
            fallback: first_of(
                search.fallback,
                first_tool(looked_at(entries, platform), platform),
            ),
        }
    }
}

/// Takes the entries of a directory into the search, up to the first server among
/// them: directories are to be listed later, and the first command line tool is
/// kept for want of a server.
pub fn find_server_executable(
    search: &mut ServerSearch,
    entries: &Vec<DirEntry>,
    platform: Platform,
)
    ensures
        final(search)@ == search_after(old(search)@, entry_views(entries@), platform),
        texts(final(search).pending@) == texts(old(search).pending@) + (if old(search).found
            is None {
            directories(looked_at(entry_views(entries@), platform))
        } else {
            Seq::empty()
        }),
{
    if search.found.is_some() {
        assert(texts(search.pending@) =~= texts(search.pending@) + Seq::empty());
        return ;
    }
    let ghost all = entry_views(entries@);
    assert(all.take(0) =~= Seq::empty());
    assert(texts(search.pending@) + directories(all.take(0)) =~= texts(search.pending@));
    let mut i: usize = 0;
    while i < entries.len()
        invariant
            i <= entries.len(),
            all == entry_views(entries@),
            old(search).found is None,
            search.found is None,
            forall|j: int| 0 <= j < i ==> !is_server(all[j], platform),
            text_view(search.fallback) == first_of(
                text_view(old(search).fallback),
                first_tool(all.take(i as int), platform),
            ),
            texts(search.pending@) == texts(old(search).pending@) + directories(
                all.take(i as int),
            ),
        decreases entries.len() - i,
    {
        let entry = &entries[i];
        proof {
            assert(all[i as int] == entry@);
            assert(all.take(i + 1).drop_last() =~= all.take(i as int));
        }
        if entry.is_dir {
            let ghost before = texts(search.pending@);
            push_text(&mut search.pending, entry.path.as_str());
            assert(before.push(entry@.path) =~= texts(old(search).pending@) + directories(
                all.take(i as int),
            ).push(entry@.path));
        } else if server_name(entry.name.as_str(), platform) {
            proof {
                lemma_server_place(all, platform, i as int);
            }
            search.found = Some(entry.path.clone());
            return ;
        } else if tool_name(entry.name.as_str()) && search.fallback.is_none() {
            search.fallback = Some(entry.path.clone());
        }
        i += 1;
    }
    proof {
        lemma_server_place(all, platform, all.len() as int);
    }
}

// ----------------------------------------------------------------------------
// Making files executable
// ----------------------------------------------------------------------------

/// The permissions that a file is to get.
#[derive(Debug, Clone, PartialEq)]
pub struct ModeChange {
    pub path: String,
    pub mode: u32,
}

/// The permissions `mode` and those to run the file: all for the owner, to read
/// and run for everyone.
pub open spec fn executable_mode(mode: u32) -> u32 {
    mode | 0o755
}

/// The permissions that the files among `entries` are to get, in order. A file
/// whose permissions could not be read is passed over.
pub open spec fn mode_changes(entries: Seq<EntryView>) -> Seq<(Seq<char>, u32)>
    decreases entries.len(),
{
    if entries.len() == 0 {
        Seq::empty()
    } else {
        let earlier = mode_changes(entries.drop_last());
        let last = entries.last();
        match last.mode {
            Some(mode) if !last.is_dir => earlier.push((last.path, executable_mode(mode))),
            _ => earlier,
        }
    }
}

/// The changes, as the contracts speak of them.
pub open spec fn change_views(changes: Seq<ModeChange>) -> Seq<(Seq<char>, u32)> {
    changes.map_values(|change: ModeChange| (change.path@, change.mode))
}

/// Takes the entries of a directory into the walk: the directories among them are
/// to be listed later, and the files get the permissions returned.
pub fn make_executable(pending: &mut Vec<String>, entries: &Vec<DirEntry>) -> (changes: Vec<
    ModeChange,
>)
    ensures
        texts(final(pending)@) == texts(old(pending)@) + directories(entry_views(entries@)),
        change_views(changes@) == mode_changes(entry_views(entries@)),
{
    let ghost all = entry_views(entries@);
    let mut changes: Vec<ModeChange> = Vec::new();
    assert(all.take(0) =~= Seq::empty());
    assert(texts(pending@) + directories(all.take(0)) =~= texts(pending@));
    let mut i: usize = 0;
    while i < entries.len()
        invariant
            i <= entries.len(),
            all == entry_views(entries@),
            texts(pending@) == texts(old(pending)@) + directories(all.take(i as int)),
            change_views(changes@) == mode_changes(all.take(i as int)),
        decreases entries.len() - i,
    {
        let entry = &entries[i];
        proof {
            assert(all[i as int] == entry@);
            assert(all.take(i + 1).drop_last() =~= all.take(i as int));
        }
        if entry.is_dir {
            let ghost before = texts(pending@);
            push_text(pending, entry.path.as_str());
            assert(before.push(entry@.path) =~= texts(old(pending)@) + directories(
                all.take(i as int),
            ).push(entry@.path));
        } else if let Some(mode) = entry.mode {
            let ghost before = change_views(changes@);
            changes.push(ModeChange { path: entry.path.clone(), mode: mode | 0o755 });
            assert(change_views(changes@) =~= before.push((entry@.path, executable_mode(mode))));
        }
        i += 1;
    }
    assert(all.take(entries@.len() as int) =~= all);
    changes
}

// ----------------------------------------------------------------------------
// Laws
// ----------------------------------------------------------------------------

/// A file that may be run already keeps its permissions, and making a file
/// executable takes no permission away.
pub proof fn executable_stays_executable(mode: u32)
    ensures
        executable_mode(executable_mode(mode)) == executable_mode(mode),
        executable_mode(mode) & mode == mode,
        executable_mode(mode) & 0o111 == 0o111,
{
    assert((mode | 0o755) | 0o755 == mode | 0o755) by (bit_vector);
    assert((mode | 0o755) & mode == mode) by (bit_vector);
    assert((mode | 0o755) & 0o111 == 0o111) by (bit_vector);
}

/// How far a search has come after it took in one listing after another.
pub open spec fn search_after_all(
    listings: Seq<Seq<EntryView>>,
    platform: Platform,
) -> SearchView
    decreases listings.len(),
{
    if listings.len() == 0 {
        SearchView { found: None, fallback: None }
    } else {
        search_after(
            search_after_all(listings.drop_last(), platform),
            listings.last(),
            platform,
        )
    }
}

/// A search gives the first server of all the entries it was handed, listing after
/// listing; the first command line tool of them where none is a server; and nothing
/// where there is neither.
pub proof fn search_prefers_the_first_server(listings: Seq<Seq<EntryView>>, platform: Platform)
    ensures
        ({
            let search = search_after_all(listings, platform);
            let all = listings.flatten();
            first_of(search.found, search.fallback) == first_of(
                first_server(all, platform),
                first_tool(all, platform),
            )
        }),
{
    lemma_search_after_all(listings, platform);
}

proof fn lemma_search_after_all(listings: Seq<Seq<EntryView>>, platform: Platform)
    ensures
        ({
            let search = search_after_all(listings, platform);
            let all = listings.flatten();
            &&& search.found == first_server(all, platform)
            &&& search.found is None ==> search.fallback == first_tool(all, platform)
        }),
    decreases listings.len(),
{
    if listings.len() == 0 {
        assert(listings.flatten() =~= Seq::empty());
    } else {
        let earlier = listings.drop_last();
        let last = listings.last();
        lemma_search_after_all(earlier, platform);
        assert(listings =~= earlier.push(last));
        earlier.lemma_flatten_push(last);
        lemma_first_server_of_two(earlier.flatten(), last, platform);
        lemma_first_tool_of_two(earlier.flatten(), last, platform);
        if first_server(last, platform) is None {
            lemma_no_server_place(last, platform);
            assert(last.take(last.len() as int) =~= last);
        }
    }
}

/// The place of the first server is where there is a server, with none before.
proof fn lemma_no_server_place(entries: Seq<EntryView>, platform: Platform)
    ensures
        0 <= server_place(entries, platform) <= entries.len(),
        forall|i: int|
            0 <= i < server_place(entries, platform) ==> !is_server(
                #[trigger] entries[i],
                platform,
            ),
        server_place(entries, platform) < entries.len() ==> is_server(
            entries[server_place(entries, platform)],
            platform,
        ),
    decreases entries.len(),
{
    if entries.len() > 0 && !is_server(entries.first(), platform) {
        let rest = entries.drop_first();
        lemma_no_server_place(rest, platform);
        assert forall|i: int| 0 <= i < server_place(entries, platform) implies !is_server(
            #[trigger] entries[i],
            platform,
        ) by {
            if i > 0 {
                assert(entries[i] == rest[i - 1]);
            }
        }
    }
}

proof fn lemma_first_server_of_two(a: Seq<EntryView>, b: Seq<EntryView>, platform: Platform)
    ensures
        first_server(a + b, platform) == first_of(
            first_server(a, platform),
            first_server(b, platform),
        ),
{
    lemma_no_server_place(a, platform);
    lemma_no_server_place(b, platform);
    let i = server_place(a, platform);
    let j = server_place(b, platform);
    if i < a.len() {
        lemma_server_place(a + b, platform, i);
    } else {
        assert forall|k: int| 0 <= k < i + j implies !is_server((a + b)[k], platform) by {
            if k < i {
                assert((a + b)[k] == a[k]);
            } else {
                assert((a + b)[k] == b[k - i]);
            }
        }
        lemma_server_place(a + b, platform, i + j);
    }
}

proof fn lemma_first_tool_of_two(a: Seq<EntryView>, b: Seq<EntryView>, platform: Platform)
    ensures
        first_tool(a + b, platform) == first_of(first_tool(a, platform), first_tool(b, platform)),
    decreases b.len(),
{
    if b.len() == 0 {
        assert(a + b =~= a);
    } else {
        lemma_first_tool_of_two(a, b.drop_last(), platform);
        assert((a + b).drop_last() =~= a + b.drop_last());
    }
}

/// `dir` is `steps` directories below `root`, where `listing` gives the entries of
/// each directory; of one that cannot be listed, none.
pub open spec fn is_below(
    root: Seq<char>,
    dir: Seq<char>,
    steps: nat,
    listing: spec_fn(Seq<char>) -> Seq<EntryView>,
) -> bool
    decreases steps,
{
    if steps == 0 {
        dir == root
    } else {
        exists|parent: Seq<char>|
            is_below(root, parent, (steps - 1) as nat, listing) && #[trigger] directories(
                listing(parent),
            ).contains(dir)
    }
}

/// `dir` is `root` or somewhere below it.
pub open spec fn is_inside(
    root: Seq<char>,
    dir: Seq<char>,
    listing: spec_fn(Seq<char>) -> Seq<EntryView>,
) -> bool {
    exists|steps: nat| is_below(root, dir, steps, listing)
}

/// How far a walk has come: the directories listed, in order, and those still to be
/// listed, of which the last one comes next.
#[verifier::ext_equal]
pub struct WalkView {
    pub listed: Seq<Seq<char>>,
    pub pending: Seq<Seq<char>>,
}

/// A walk after its next directory was listed.
pub open spec fn walk_after(
    walk: WalkView,
    listing: spec_fn(Seq<char>) -> Seq<EntryView>,
) -> WalkView {
    if walk.pending.len() == 0 {
        walk
    } else {
        WalkView {
            listed: walk.listed.push(walk.pending.last()),
            pending: walk.pending.drop_last() + directories(listing(walk.pending.last())),
        }
    }
}

/// A walk after `steps` more directories were listed.
pub open spec fn walk_through(
    walk: WalkView,
    steps: nat,
    listing: spec_fn(Seq<char>) -> Seq<EntryView>,
) -> WalkView
    decreases steps,
{
    if steps == 0 {
        walk
    } else {
        walk_after(walk_through(walk, (steps - 1) as nat, listing), listing)
    }
}

/// A walk of `root` and all below it, after `steps` directories were listed.
pub open spec fn walked(
    root: Seq<char>,
    steps: nat,
    listing: spec_fn(Seq<char>) -> Seq<EntryView>,
) -> WalkView {
    walk_through(WalkView { listed: Seq::empty(), pending: seq![root] }, steps, listing)
}

/// What was listed, directory after directory.
pub open spec fn listings_of(
    dirs: Seq<Seq<char>>,
    listing: spec_fn(Seq<char>) -> Seq<EntryView>,
) -> Seq<Seq<EntryView>> {
    dirs.map_values(|dir: Seq<char>| listing(dir))
}

/// No directory is missing: the root was listed or is still to be, and so is each
/// directory in one that was listed.
spec fn misses_nothing(
    root: Seq<char>,
    walk: WalkView,
    listing: spec_fn(Seq<char>) -> Seq<EntryView>,
) -> bool {
    &&& walk.listed.contains(root) || walk.pending.contains(root)
    &&& forall|dir: Seq<char>, child: Seq<char>|
        walk.listed.contains(dir) && #[trigger] directories(listing(dir)).contains(child)
            ==> walk.listed.contains(child) || walk.pending.contains(child)
}

/// Nothing is among the directories that is not the root or below it.
spec fn stays_inside(
    root: Seq<char>,
    walk: WalkView,
    listing: spec_fn(Seq<char>) -> Seq<EntryView>,
) -> bool {
    &&& forall|dir: Seq<char>| #[trigger]
        walk.listed.contains(dir) ==> is_inside(root, dir, listing)
    &&& forall|dir: Seq<char>| #[trigger]
        walk.pending.contains(dir) ==> is_inside(root, dir, listing)
}

proof fn lemma_walk_keeps_its_bounds(
    root: Seq<char>,
    steps: nat,
    listing: spec_fn(Seq<char>) -> Seq<EntryView>,
)
    ensures
        misses_nothing(root, walked(root, steps, listing), listing),
        stays_inside(root, walked(root, steps, listing), listing),
    decreases steps,
{
    if steps == 0 {
        let walk = walked(root, 0, listing);
        assert(walk.pending[0] == root);
        assert(is_below(root, root, 0, listing));
        assert forall|dir: Seq<char>| #[trigger] walk.pending.contains(dir) implies is_inside(
            root,
            dir,
            listing,
        ) by {
            assert(dir == root);
        }
    } else {
        let before = walked(root, (steps - 1) as nat, listing);
        let after = walked(root, steps, listing);
        lemma_walk_keeps_its_bounds(root, (steps - 1) as nat, listing);
        if before.pending.len() > 0 {
            let next = before.pending.last();
            let rest = before.pending.drop_last();
            let found = directories(listing(next));
            assert(before.pending.contains(next));
            let way = choose|way: nat| is_below(root, next, way, listing);
            assert forall|dir: Seq<char>|
                #![trigger after.listed.contains(dir)]
                after.listed.contains(dir) <==> before.listed.contains(dir) || dir == next by {
                lemma_push_contains(before.listed, next, dir);
            }
            assert forall|dir: Seq<char>|
                #![trigger after.pending.contains(dir)]
                after.pending.contains(dir) <==> rest.contains(dir) || found.contains(dir) by {
                lemma_add_contains(rest, found, dir);
            }
            assert forall|dir: Seq<char>|
                #![trigger before.pending.contains(dir)]
                before.pending.contains(dir) <==> rest.contains(dir) || dir == next by {
                assert(before.pending =~= rest.push(next));
                lemma_push_contains(rest, next, dir);
            }
            assert forall|dir: Seq<char>| #[trigger] found.contains(dir) implies is_inside(
                root,
                dir,
                listing,
            ) by {
                assert(directories(listing(next)).contains(dir));
                assert(is_below(root, dir, way + 1, listing));
            }
            assert forall|dir: Seq<char>| #[trigger] after.pending.contains(dir) implies is_inside(
                root,
                dir,
                listing,
            ) by {
                if rest.contains(dir) {
                    assert(before.pending.contains(dir));
                }
            }
            assert forall|dir: Seq<char>| #[trigger] after.listed.contains(dir) implies is_inside(
                root,
                dir,
                listing,
            ) by {
                if dir != next {
                    assert(before.listed.contains(dir));
                }
            }
        }
    }
}

proof fn lemma_push_contains(dirs: Seq<Seq<char>>, last: Seq<char>, dir: Seq<char>)
    ensures
        dirs.push(last).contains(dir) <==> dirs.contains(dir) || dir == last,
{
    let all = dirs.push(last);
    if dirs.contains(dir) {
        assert(all[dirs.index_of(dir)] == dir);
    }
    assert(all[dirs.len() as int] == last);
    if all.contains(dir) {
        let i = all.index_of(dir);
        assert(i < dirs.len() ==> dirs[i] == dir);
    }
}

proof fn lemma_add_contains(a: Seq<Seq<char>>, b: Seq<Seq<char>>, dir: Seq<char>)
    ensures
        (a + b).contains(dir) <==> a.contains(dir) || b.contains(dir),
{
    let all = a + b;
    if a.contains(dir) {
        assert(all[a.index_of(dir)] == dir);
    }
    if b.contains(dir) {
        assert(all[a.len() + b.index_of(dir)] == dir);
    }
    if all.contains(dir) {
        let i = all.index_of(dir);
        assert(if i < a.len() { a[i] == dir } else { b[i - a.len()] == dir });
    }
}

/// A walk lists nothing but the root and directories below it, and once nothing is left
/// to list it has listed them all.
pub proof fn finished_walk_has_listed_all(
    root: Seq<char>,
    steps: nat,
    listing: spec_fn(Seq<char>) -> Seq<EntryView>,
    dir: Seq<char>,
)
    ensures
        walked(root, steps, listing).listed.contains(dir) ==> is_inside(root, dir, listing),
        walked(root, steps, listing).pending.len() == 0 && is_inside(root, dir, listing)
            ==> walked(root, steps, listing).listed.contains(dir),
{
    let walk = walked(root, steps, listing);
    lemma_walk_keeps_its_bounds(root, steps, listing);
    if walk.pending.len() == 0 && is_inside(root, dir, listing) {
        let way = choose|way: nat| is_below(root, dir, way, listing);
        lemma_below_is_listed(root, walk, listing, dir, way);
    }
}

proof fn lemma_below_is_listed(
    root: Seq<char>,
    walk: WalkView,
    listing: spec_fn(Seq<char>) -> Seq<EntryView>,
    dir: Seq<char>,
    way: nat,
)
    requires
        misses_nothing(root, walk, listing),
        walk.pending.len() == 0,
        is_below(root, dir, way, listing),
    ensures
        walk.listed.contains(dir),
    decreases way,
{
    if way > 0 {
        let parent = choose|parent: Seq<char>|
            is_below(root, parent, (way - 1) as nat, listing) && #[trigger] directories(
                listing(parent),
            ).contains(dir);
        lemma_below_is_listed(root, walk, listing, parent, (way - 1) as nat);
    }
}

/// Each directory is higher up than those in it, as `height` tells: no directory leads
/// back to itself.
pub open spec fn is_tree(
    listing: spec_fn(Seq<char>) -> Seq<EntryView>,
    height: spec_fn(Seq<char>) -> nat,
) -> bool {
    forall|dir: Seq<char>, child: Seq<char>| #[trigger]
        directories(listing(dir)).contains(child) ==> height(child) < height(dir)
}

/// A walk through a tree comes to an end.
pub proof fn walk_through_a_tree_ends(
    root: Seq<char>,
    listing: spec_fn(Seq<char>) -> Seq<EntryView>,
    height: spec_fn(Seq<char>) -> nat,
)
    requires
        is_tree(listing, height),
    ensures
        exists|steps: nat| (#[trigger] walked(root, steps, listing)).pending.len() == 0,
{
    let start = WalkView { listed: Seq::empty(), pending: seq![root] };
    assert(start.pending =~= Seq::<Seq<char>>::empty().push(root));
    let steps = lemma_walk_leaves(start, Seq::empty(), root, listing, height);
    assert(walked(root, steps, listing).pending.len() == 0);
}

/// The steps after which a walk is done with `dir` and all below it.
proof fn lemma_walk_leaves(
    walk: WalkView,
    rest: Seq<Seq<char>>,
    dir: Seq<char>,
    listing: spec_fn(Seq<char>) -> Seq<EntryView>,
    height: spec_fn(Seq<char>) -> nat,
) -> (steps: nat)
    requires
        is_tree(listing, height),
        walk.pending == rest.push(dir),
    ensures
        walk_through(walk, steps, listing).pending == rest,
    decreases height(dir), 1nat, 0nat,
{
    let next = walk_after(walk, listing);
    assert(walk.pending.drop_last() =~= rest);
    let children = directories(listing(dir));
    assert(children.take(children.len() as int) =~= children);
    let more = lemma_walk_leaves_all(next, rest, dir, children.len(), listing, height);
    lemma_walk_adds_up(walk, 1, more, listing);
    assert(walk_through(walk, 0, listing) == walk);
    assert(walk_through(walk, 1, listing) == next);
    more + 1
}

/// The steps after which a walk is done with the first `count` directories in `dir` and
/// all below them.
proof fn lemma_walk_leaves_all(
    walk: WalkView,
    rest: Seq<Seq<char>>,
    dir: Seq<char>,
    count: nat,
    listing: spec_fn(Seq<char>) -> Seq<EntryView>,
    height: spec_fn(Seq<char>) -> nat,
) -> (steps: nat)
    requires
        is_tree(listing, height),
        count <= directories(listing(dir)).len(),
        walk.pending == rest + directories(listing(dir)).take(count as int),
    ensures
        walk_through(walk, steps, listing).pending == rest,
    decreases height(dir), 0nat, count,
{
    let children = directories(listing(dir));
    if count == 0 {
        assert(walk.pending =~= rest);
        0
    } else {
        let fewer = (count - 1) as nat;
        let child = children[fewer as int];
        assert(children.contains(child));
        let before = rest + children.take(fewer as int);
        assert(walk.pending =~= before.push(child));
        let first = lemma_walk_leaves(walk, before, child, listing, height);
        let then_walk = walk_through(walk, first, listing);
        let more = lemma_walk_leaves_all(then_walk, rest, dir, fewer, listing, height);
        lemma_walk_adds_up(walk, first, more, listing);
        first + more
    }
}

proof fn lemma_walk_adds_up(
    walk: WalkView,
    first: nat,
    more: nat,
    listing: spec_fn(Seq<char>) -> Seq<EntryView>,
)
    ensures
        walk_through(walk, first + more, listing) == walk_through(
            walk_through(walk, first, listing),
            more,
            listing,
        ),
    decreases more,
{
    if more > 0 {
        lemma_walk_adds_up(walk, first, (more - 1) as nat, listing);
    }
}

/// As long as it finds no server, a search walks on through all directories: of a
/// listing without a server each entry is looked at.
pub proof fn search_without_a_server_walks_on(entries: Seq<EntryView>, platform: Platform)
    requires
        first_server(entries, platform) is None,
    ensures
        looked_at(entries, platform) == entries,
{
    lemma_no_server_place(entries, platform);
    assert(entries.take(entries.len() as int) =~= entries);
}

/// A search has seen all: once its walk is over, it comes to a server where one lies in
/// the root or below it, and for want of a server to a command line tool where one lies
/// there.
pub proof fn finished_search_missed_nothing(
    root: Seq<char>,
    steps: nat,
    platform: Platform,
    listing: spec_fn(Seq<char>) -> Seq<EntryView>,
    dir: Seq<char>,
    place: int,
)
    requires
        walked(root, steps, listing).pending.len() == 0,
        is_inside(root, dir, listing),
        0 <= place < listing(dir).len(),
    ensures
        ({
            let search = search_after_all(
                listings_of(walked(root, steps, listing).listed, listing),
                platform,
            );
            &&& is_server(listing(dir)[place], platform) ==> search.found is Some
            &&& is_tool(listing(dir)[place], platform) ==> search.found is Some
                || search.fallback is Some
        }),
{
    let dirs = walked(root, steps, listing).listed;
    let listings = listings_of(dirs, listing);
    finished_walk_has_listed_all(root, steps, listing, dir);
    let at = dirs.index_of(dir);
    assert(listings[at] == listing(dir));
    lemma_search_saw(listings, platform, at, place);
}

proof fn lemma_search_saw(
    listings: Seq<Seq<EntryView>>,
    platform: Platform,
    at: int,
    place: int,
)
    requires
        0 <= at < listings.len(),
        0 <= place < listings[at].len(),
    ensures
        ({
            let search = search_after_all(listings, platform);
            &&& is_server(listings[at][place], platform) ==> search.found is Some
            &&& is_tool(listings[at][place], platform) ==> search.found is Some
                || search.fallback is Some
        }),
    decreases listings.len(),
{
    let last = listings.last();
    if at < listings.len() - 1 {
        lemma_search_saw(listings.drop_last(), platform, at, place);
    } else {
        lemma_no_server_place(last, platform);
        if first_server(last, platform) is None {
            search_without_a_server_walks_on(last, platform);
            if is_tool(last[place], platform) {
                lemma_first_tool_is_there(last, platform, place);
            }
        }
    }
}

proof fn lemma_first_tool_is_there(entries: Seq<EntryView>, platform: Platform, place: int)
    requires
        0 <= place < entries.len(),
        is_tool(entries[place], platform),
    ensures
        first_tool(entries, platform) is Some,
    decreases entries.len(),
{
    if place < entries.len() - 1 {
        lemma_first_tool_is_there(entries.drop_last(), platform, place);
    }
}

/// Some entry of the root or of a directory below it is `path`, and is a server or else
/// a command line tool.
pub open spec fn is_executable_inside(
    root: Seq<char>,
    path: Seq<char>,
    server: bool,
    platform: Platform,
    listing: spec_fn(Seq<char>) -> Seq<EntryView>,
) -> bool {
    exists|dir: Seq<char>, place: int|
        is_inside(root, dir, listing) && 0 <= place < listing(dir).len() && {
            let entry = #[trigger] listing(dir)[place];
            entry.path == path && if server {
                is_server(entry, platform)
            } else {
                is_tool(entry, platform)
            }
        }
}

/// A search comes to nothing but a server, or else a command line tool, that lies in the
/// root or below it.
pub proof fn search_finds_only_what_is_inside(
    root: Seq<char>,
    steps: nat,
    platform: Platform,
    listing: spec_fn(Seq<char>) -> Seq<EntryView>,
)
    ensures
        ({
            let search = search_after_all(
                listings_of(walked(root, steps, listing).listed, listing),
                platform,
            );
            &&& search.found matches Some(path) ==> is_executable_inside(
                root,
                path,
                true,
                platform,
                listing,
            )
            &&& search.fallback matches Some(path) ==> is_executable_inside(
                root,
                path,
                false,
                platform,
                listing,
            )
        }),
{
    let dirs = walked(root, steps, listing).listed;
    assert forall|i: int| 0 <= i < dirs.len() implies is_inside(
        root,
        #[trigger] dirs[i],
        listing,
    ) by {
        finished_walk_has_listed_all(root, steps, listing, dirs[i]);
    }
    lemma_search_finds_inside(root, dirs, platform, listing);
}

proof fn lemma_search_finds_inside(
    root: Seq<char>,
    dirs: Seq<Seq<char>>,
    platform: Platform,
    listing: spec_fn(Seq<char>) -> Seq<EntryView>,
)
    requires
        forall|i: int| 0 <= i < dirs.len() ==> is_inside(root, #[trigger] dirs[i], listing),
    ensures
        ({
            let search = search_after_all(listings_of(dirs, listing), platform);
            &&& search.found matches Some(path) ==> is_executable_inside(
                root,
                path,
                true,
                platform,
                listing,
            )
            &&& search.fallback matches Some(path) ==> is_executable_inside(
                root,
                path,
                false,
                platform,
                listing,
            )
        }),
    decreases dirs.len(),
{
    if dirs.len() > 0 {
        let rest = dirs.drop_last();
        let dir = dirs.last();
        assert forall|i: int| 0 <= i < rest.len() implies is_inside(
            root,
            #[trigger] rest[i],
            listing,
        ) by {
            assert(rest[i] == dirs[i]);
        }
        lemma_search_finds_inside(root, rest, platform, listing);
        assert(is_inside(root, dirs[dirs.len() - 1], listing));
        let listings = listings_of(dirs, listing);
        assert(listings.drop_last() =~= listings_of(rest, listing));
        assert(listings.last() == listing(dir));
        let entries = listing(dir);
        lemma_no_server_place(entries, platform);
        let seen = looked_at(entries, platform);
        if first_tool(seen, platform) is Some {
            let place = lemma_first_tool_is_one(seen, platform);
            assert(seen[place] == listing(dir)[place]);
        }
        if first_server(entries, platform) is Some {
            let place = server_place(entries, platform);
            assert(listing(dir)[place].path == first_server(entries, platform)->0);
        }
    }
}

proof fn lemma_first_tool_is_one(entries: Seq<EntryView>, platform: Platform) -> (place: int)
    requires
        first_tool(entries, platform) is Some,
    ensures
        0 <= place < entries.len(),
        is_tool(entries[place], platform),
        first_tool(entries, platform) == Some(entries[place].path),
    decreases entries.len(),
{
    if first_tool(entries.drop_last(), platform) is Some {
        lemma_first_tool_is_one(entries.drop_last(), platform)
    } else {
        entries.len() - 1
    }
}

/// What a search of `root` and all below it comes to, after `steps` directories were
/// listed: a server, or else a command line tool.
pub open spec fn searched(
    root: Seq<char>,
    steps: nat,
    platform: Platform,
    listing: spec_fn(Seq<char>) -> Seq<EntryView>,
) -> Option<Seq<char>> {
    let search = search_after_all(
        listings_of(walked(root, steps, listing).listed, listing),
        platform,
    );
    first_of(search.found, search.fallback)
}

/// `path` is that of a server or a command line tool in the root or below it.
pub open spec fn lies_inside(
    root: Seq<char>,
    path: Seq<char>,
    platform: Platform,
    listing: spec_fn(Seq<char>) -> Seq<EntryView>,
) -> bool {
    is_executable_inside(root, path, true, platform, listing) || is_executable_inside(
        root,
        path,
        false,
        platform,
        listing,
    )
}

/// What a directory holds is named under it.
pub open spec fn names_its_entries(listing: spec_fn(Seq<char>) -> Seq<EntryView>) -> bool {
    forall|dir: Seq<char>, i: int|
        0 <= i < listing(dir).len() ==> is_named_under((#[trigger] listing(dir)[i]).path, dir)
}

/// Where what a directory holds is named under it, what lies in the root or below it does
/// so by its path too.
pub proof fn what_lies_inside_is_below_by_its_path(
    root: Seq<char>,
    path: Seq<char>,
    platform: Platform,
    listing: spec_fn(Seq<char>) -> Seq<EntryView>,
)
    requires
        names_its_entries(listing),
        lies_inside(root, path, platform, listing),
    ensures
        crate::paths::is_below(path, root),
{
    let (dir, place) = choose|dir: Seq<char>, place: int|
        is_inside(root, dir, listing) && 0 <= place < listing(dir).len() && (
        #[trigger] listing(dir)[place]).path == path;
    let way = choose|way: nat| is_below(root, dir, way, listing);
    lemma_inside_is_below_by_its_path(root, dir, way, listing);
    assert(is_named_under(listing(dir)[place].path, dir));
    lemma_named_under_is_below(path, dir);
}

proof fn lemma_inside_is_below_by_its_path(
    root: Seq<char>,
    dir: Seq<char>,
    way: nat,
    listing: spec_fn(Seq<char>) -> Seq<EntryView>,
)
    requires
        names_its_entries(listing),
        is_below(root, dir, way, listing),
    ensures
        crate::paths::is_below(dir, root),
    decreases way,
{
    if way > 0 {
        let parent = choose|parent: Seq<char>|
            is_below(root, parent, (way - 1) as nat, listing) && #[trigger] directories(
                listing(parent),
            ).contains(dir);
        lemma_inside_is_below_by_its_path(root, parent, (way - 1) as nat, listing);
        let i = lemma_directory_is_an_entry(listing(parent), dir);
        assert(is_named_under(listing(parent)[i].path, parent));
        lemma_named_under_is_below(dir, parent);
    }
}

proof fn lemma_named_under_is_below(path: Seq<char>, dir: Seq<char>)
    requires
        is_named_under(path, dir),
    ensures
        crate::paths::is_below(path, dir),
{
    let n = dir.len() + 1;
    let rest = path.skip(n as int);
    assert(path.take(n as int) =~= dir + seq!['/']);
    assert(path =~= dir + seq!['/'] + rest);
    crate::paths::what_is_named_under_a_directory_is_in_it(dir, rest);
}

proof fn lemma_directory_is_an_entry(entries: Seq<EntryView>, dir: Seq<char>) -> (place: int)
    requires
        directories(entries).contains(dir),
    ensures
        0 <= place < entries.len(),
        entries[place].is_dir,
        entries[place].path == dir,
    decreases entries.len(),
{
    let rest = entries.drop_last();
    if directories(rest).contains(dir) {
        lemma_directory_is_an_entry(rest, dir)
    } else {
        let k = directories(entries).index_of(dir);
        assert(k < directories(rest).len() ==> directories(rest)[k] == dir);
        entries.len() - 1
    }
}

/// The permissions that the files in `dirs` are to get, directory after directory.
pub open spec fn all_changes(
    dirs: Seq<Seq<char>>,
    listing: spec_fn(Seq<char>) -> Seq<EntryView>,
) -> Seq<(Seq<char>, u32)>
    decreases dirs.len(),
{
    if dirs.len() == 0 {
        Seq::empty()
    } else {
        all_changes(dirs.drop_last(), listing) + mode_changes(listing(dirs.last()))
    }
}

/// The permissions that `path` has got, if any: those it got last.
pub open spec fn mode_set(changes: Seq<(Seq<char>, u32)>, path: Seq<char>) -> Option<u32>
    decreases changes.len(),
{
    if changes.len() == 0 {
        None
    } else if changes.last().0 == path {
        Some(changes.last().1)
    } else {
        mode_set(changes.drop_last(), path)
    }
}

/// The entry after `changes` were made, where `may_set` tells of which paths the
/// permissions can be set.
pub open spec fn entry_after(
    entry: EntryView,
    changes: Seq<(Seq<char>, u32)>,
    may_set: spec_fn(Seq<char>) -> bool,
) -> EntryView {
    match mode_set(changes, entry.path) {
        Some(mode) if may_set(entry.path) => EntryView { mode: Some(mode), ..entry },
        _ => entry,
    }
}

/// The directories after `changes` were made.
pub open spec fn tree_after(
    listing: spec_fn(Seq<char>) -> Seq<EntryView>,
    changes: Seq<(Seq<char>, u32)>,
    may_set: spec_fn(Seq<char>) -> bool,
) -> spec_fn(Seq<char>) -> Seq<EntryView> {
    |dir: Seq<char>|
        listing(dir).map_values(|entry: EntryView| entry_after(entry, changes, may_set))
}

/// A path names one entry.
pub open spec fn is_consistent(listing: spec_fn(Seq<char>) -> Seq<EntryView>) -> bool {
    forall|a: Seq<char>, i: int, b: Seq<char>, j: int|
        0 <= i < listing(a).len() && 0 <= j < listing(b).len() && (#[trigger] listing(a)[i]).path
            == (#[trigger] listing(b)[j]).path ==> listing(a)[i] == listing(b)[j]
}

/// The entry is a file whose permissions could be read.
pub open spec fn is_readable_file(entry: EntryView) -> bool {
    !entry.is_dir && entry.mode is Some
}

/// The entry once it may be run, where its permissions can be set; else as it was. A
/// directory stays as it was in any case.
pub open spec fn made_executable(
    entry: EntryView,
    may_set: spec_fn(Seq<char>) -> bool,
) -> EntryView {
    if is_readable_file(entry) && may_set(entry.path) {
        EntryView { mode: Some(executable_mode(entry.mode->0)), ..entry }
    } else {
        entry
    }
}

proof fn lemma_mode_changes(entries: Seq<EntryView>, change: (Seq<char>, u32))
    ensures
        mode_changes(entries).contains(change) <==> exists|i: int|
            0 <= i < entries.len() && is_readable_file(#[trigger] entries[i]) && change == (
                entries[i].path,
                executable_mode(entries[i].mode->0),
            ),
    decreases entries.len(),
{
    if entries.len() > 0 {
        let rest = entries.drop_last();
        let earlier = mode_changes(rest);
        let all = mode_changes(entries);
        let n = entries.len() - 1;
        lemma_mode_changes(rest, change);
        if all.contains(change) {
            let k = all.index_of(change);
            if k < earlier.len() {
                assert(earlier[k] == change);
                let i = choose|i: int|
                    0 <= i < rest.len() && is_readable_file(#[trigger] rest[i]) && change == (
                        rest[i].path,
                        executable_mode(rest[i].mode->0),
                    );
                assert(entries[i] == rest[i]);
            } else {
                assert(is_readable_file(entries[n]));
            }
        }
        if exists|i: int|
            0 <= i < entries.len() && is_readable_file(#[trigger] entries[i]) && change == (
                entries[i].path,
                executable_mode(entries[i].mode->0),
            ) {
            let i = choose|i: int|
                0 <= i < entries.len() && is_readable_file(#[trigger] entries[i]) && change == (
                    entries[i].path,
                    executable_mode(entries[i].mode->0),
                );
            if i < n {
                assert(rest[i] == entries[i]);
                assert(all[earlier.index_of(change)] == change);
            } else {
                assert(all[earlier.len() as int] == change);
            }
        }
    }
}

/// A change is asked for exactly where a file in one of `dirs` gives rise to it.
proof fn lemma_all_changes(
    dirs: Seq<Seq<char>>,
    listing: spec_fn(Seq<char>) -> Seq<EntryView>,
    change: (Seq<char>, u32),
)
    ensures
        all_changes(dirs, listing).contains(change) <==> exists|k: int|
            0 <= k < dirs.len() && mode_changes(listing(#[trigger] dirs[k])).contains(change),
    decreases dirs.len(),
{
    if dirs.len() > 0 {
        let rest = dirs.drop_last();
        let earlier = all_changes(rest, listing);
        let last = mode_changes(listing(dirs.last()));
        let all = all_changes(dirs, listing);
        let n = dirs.len() - 1;
        lemma_all_changes(rest, listing, change);
        if all.contains(change) {
            let at = all.index_of(change);
            if at < earlier.len() {
                assert(earlier[at] == change);
                let k = choose|k: int|
                    0 <= k < rest.len() && mode_changes(listing(#[trigger] rest[k])).contains(
                        change,
                    );
                assert(dirs[k] == rest[k]);
            } else {
                assert(last[at - earlier.len()] == change);
                assert(mode_changes(listing(dirs[n])).contains(change));
            }
        }
        if exists|k: int|
            0 <= k < dirs.len() && mode_changes(listing(#[trigger] dirs[k])).contains(change) {
            let k = choose|k: int|
                0 <= k < dirs.len() && mode_changes(listing(#[trigger] dirs[k])).contains(change);
            if k < n {
                assert(rest[k] == dirs[k]);
                assert(all[earlier.index_of(change)] == change);
            } else {
                assert(all[earlier.len() + last.index_of(change)] == change);
            }
        }
    }
}

proof fn lemma_mode_set(changes: Seq<(Seq<char>, u32)>, path: Seq<char>)
    ensures
        mode_set(changes, path) matches Some(mode) ==> changes.contains((path, mode)),
        mode_set(changes, path) is None ==> forall|mode: u32| !changes.contains((path, mode)),
    decreases changes.len(),
{
    if changes.len() > 0 {
        let rest = changes.drop_last();
        lemma_mode_set(rest, path);
        if changes.last().0 == path {
            assert(changes[changes.len() - 1] == (path, changes.last().1));
        } else {
            match mode_set(rest, path) {
                Some(mode) => {
                    assert(changes[rest.index_of((path, mode))] == (path, mode));
                },
                None => {
                    assert forall|mode: u32| !changes.contains((path, mode)) by {
                        if changes.contains((path, mode)) {
                            let i = changes.index_of((path, mode));
                            assert(rest[i] == (path, mode));
                            assert(rest.contains((path, mode)));
                        }
                    }
                },
            }
        }
    }
}

/// The permissions that an entry gets in a walk are those that it needs to be run, and it
/// gets them where it lies in a directory that was listed.
proof fn lemma_walk_sets(
    dirs: Seq<Seq<char>>,
    listing: spec_fn(Seq<char>) -> Seq<EntryView>,
    dir: Seq<char>,
    place: int,
)
    requires
        is_consistent(listing),
        0 <= place < listing(dir).len(),
    ensures
        ({
            let entry = listing(dir)[place];
            let set = mode_set(all_changes(dirs, listing), entry.path);
            &&& set matches Some(mode) ==> is_readable_file(entry) && mode == executable_mode(
                entry.mode->0,
            ) && exists|k: int, i: int|
                0 <= k < dirs.len() && 0 <= i < listing(dirs[k]).len() && #[trigger] listing(
                    dirs[k],
                )[i] == entry
            &&& dirs.contains(dir) && is_readable_file(entry) ==> set is Some
        }),
{
    let entry = listing(dir)[place];
    let changes = all_changes(dirs, listing);
    lemma_mode_set(changes, entry.path);
    match mode_set(changes, entry.path) {
        Some(mode) => {
            let change = (entry.path, mode);
            lemma_all_changes(dirs, listing, change);
            let k = choose|k: int|
                0 <= k < dirs.len() && mode_changes(listing(#[trigger] dirs[k])).contains(change);
            let entries = listing(dirs[k]);
            lemma_mode_changes(entries, change);
            let i = choose|i: int|
                0 <= i < entries.len() && is_readable_file(#[trigger] entries[i]) && change == (
                    entries[i].path,
                    executable_mode(entries[i].mode->0),
                );
            assert(listing(dirs[k])[i].path == listing(dir)[place].path);
            assert(listing(dirs[k])[i] == entry);
        },
        None => {
            if dirs.contains(dir) && is_readable_file(entry) {
                let change = (entry.path, executable_mode(entry.mode->0));
                let k = dirs.index_of(dir);
                lemma_mode_changes(listing(dir), change);
                lemma_all_changes(dirs, listing, change);
                assert(mode_changes(listing(dirs[k])).contains(change));
            }
        },
    }
}

/// A walk that is over has made all files executable: each file in the root or below it
/// whose permissions could be read and can be set has those to be run beside its own.
/// Nothing else has changed there: no name, no directory, and no other file.
pub proof fn finished_walk_made_all_executable(
    root: Seq<char>,
    steps: nat,
    listing: spec_fn(Seq<char>) -> Seq<EntryView>,
    may_set: spec_fn(Seq<char>) -> bool,
    dir: Seq<char>,
)
    requires
        is_consistent(listing),
        walked(root, steps, listing).pending.len() == 0,
        is_inside(root, dir, listing),
    ensures
        ({
            let changes = all_changes(walked(root, steps, listing).listed, listing);
            tree_after(listing, changes, may_set)(dir) == listing(dir).map_values(
                |entry: EntryView| made_executable(entry, may_set),
            )
        }),
{
    let dirs = walked(root, steps, listing).listed;
    let changes = all_changes(dirs, listing);
    finished_walk_has_listed_all(root, steps, listing, dir);
    let after = tree_after(listing, changes, may_set)(dir);
    let wanted = listing(dir).map_values(|entry: EntryView| made_executable(entry, may_set));
    assert forall|i: int| 0 <= i < listing(dir).len() implies after[i] == wanted[i] by {
        lemma_walk_sets(dirs, listing, dir, i);
    }
    assert(after =~= wanted);
}

/// A walk never touches what lies outside: an entry changes only where it is a file in
/// the root or in a directory below it.
pub proof fn walk_changes_only_what_is_inside(
    root: Seq<char>,
    steps: nat,
    listing: spec_fn(Seq<char>) -> Seq<EntryView>,
    may_set: spec_fn(Seq<char>) -> bool,
    dir: Seq<char>,
    place: int,
)
    requires
        is_consistent(listing),
        0 <= place < listing(dir).len(),
    ensures
        ({
            let entry = listing(dir)[place];
            let changes = all_changes(walked(root, steps, listing).listed, listing);
            entry_after(entry, changes, may_set) != entry ==> !entry.is_dir && exists|
                home: Seq<char>,
                i: int,
            |
                is_inside(root, home, listing) && 0 <= i < listing(home).len()
                    && #[trigger] listing(home)[i] == entry
        }),
{
    let dirs = walked(root, steps, listing).listed;
    let entry = listing(dir)[place];
    let changes = all_changes(dirs, listing);
    lemma_walk_sets(dirs, listing, dir, place);
    if entry_after(entry, changes, may_set) != entry {
        let (k, i) = choose|k: int, i: int|
            0 <= k < dirs.len() && 0 <= i < listing(dirs[k]).len() && #[trigger] listing(
                dirs[k],
            )[i] == entry;
        finished_walk_has_listed_all(root, steps, listing, dirs[k]);
        assert(listing(dirs[k])[i] == entry);
    }
}

/// A second walk changes nothing: it lists the same directories, and what it sets is
/// set already.
pub proof fn second_walk_changes_nothing(
    root: Seq<char>,
    steps: nat,
    listing: spec_fn(Seq<char>) -> Seq<EntryView>,
    may_set: spec_fn(Seq<char>) -> bool,
    dir: Seq<char>,
)
    requires
        is_consistent(listing),
        walked(root, steps, listing).pending.len() == 0,
    ensures
        ({
            let walk = walked(root, steps, listing);
            let first = tree_after(listing, all_changes(walk.listed, listing), may_set);
            let again = walked(root, steps, first);
            &&& again == walk
            &&& tree_after(first, all_changes(again.listed, first), may_set)(dir) == first(dir)
        }),
{
    let walk = walked(root, steps, listing);
    let changes = all_changes(walk.listed, listing);
    let first = tree_after(listing, changes, may_set);
    let start = WalkView { listed: Seq::empty(), pending: seq![root] };
    lemma_same_directories(start, steps, listing, changes, may_set);
    lemma_tree_stays_consistent(listing, changes, may_set);
    let more = all_changes(walk.listed, first);
    let second = tree_after(first, more, may_set);
    let before = first(dir);
    let after = second(dir);
    assert forall|i: int| 0 <= i < before.len() implies after[i] == before[i] by {
        let entry = before[i];
        lemma_walk_sets(walk.listed, first, dir, i);
        lemma_walk_sets(walk.listed, listing, dir, i);
        if mode_set(more, entry.path) is Some && may_set(entry.path) {
            let (k, j) = choose|k: int, j: int|
                0 <= k < walk.listed.len() && 0 <= j < first(walk.listed[k]).len()
                    && #[trigger] first(walk.listed[k])[j] == entry;
            let home = walk.listed[k];
            assert(listing(home)[j].path == listing(dir)[i].path);
            lemma_walk_sets(walk.listed, listing, home, j);
            executable_stays_executable(listing(home)[j].mode->0);
        }
    }
    assert(after =~= before);
}

proof fn lemma_tree_stays_consistent(
    listing: spec_fn(Seq<char>) -> Seq<EntryView>,
    changes: Seq<(Seq<char>, u32)>,
    may_set: spec_fn(Seq<char>) -> bool,
)
    requires
        is_consistent(listing),
    ensures
        is_consistent(tree_after(listing, changes, may_set)),
{
    let after = tree_after(listing, changes, may_set);
    assert forall|a: Seq<char>, i: int, b: Seq<char>, j: int|
        0 <= i < after(a).len() && 0 <= j < after(b).len() && (#[trigger] after(a)[i]).path == (
        #[trigger] after(b)[j]).path implies after(a)[i] == after(b)[j] by {
        assert(listing(a)[i].path == listing(b)[j].path);
    }
}

/// Changes of permissions leave the directories as they are, and so the way of a walk.
proof fn lemma_same_directories(
    walk: WalkView,
    steps: nat,
    listing: spec_fn(Seq<char>) -> Seq<EntryView>,
    changes: Seq<(Seq<char>, u32)>,
    may_set: spec_fn(Seq<char>) -> bool,
)
    ensures
        walk_through(walk, steps, tree_after(listing, changes, may_set)) == walk_through(
            walk,
            steps,
            listing,
        ),
    decreases steps,
{
    if steps > 0 {
        lemma_same_directories(walk, (steps - 1) as nat, listing, changes, may_set);
        let before = walk_through(walk, (steps - 1) as nat, listing);
        lemma_directories_stay(listing(before.pending.last()), changes, may_set);
    }
}

proof fn lemma_directories_stay(
    entries: Seq<EntryView>,
    changes: Seq<(Seq<char>, u32)>,
    may_set: spec_fn(Seq<char>) -> bool,
)
    ensures
        directories(
            entries.map_values(|entry: EntryView| entry_after(entry, changes, may_set)),
        ) == directories(entries),
    decreases entries.len(),
{
    let after = entries.map_values(|entry: EntryView| entry_after(entry, changes, may_set));
    if entries.len() > 0 {
        lemma_directories_stay(entries.drop_last(), changes, may_set);
        assert(after.drop_last() =~= entries.drop_last().map_values(
            |entry: EntryView| entry_after(entry, changes, may_set),
        ));
    }
}

/// The servers are called `sd-server`, `sd-cpp-server` or `server`; on Windows `.exe`
/// follows, and there nothing without it is one. What a server is called elsewhere does
/// not depend on the platform.
pub proof fn a_server_is_known_by_its_name(name: Seq<char>, path: Seq<char>, mode: Option<u32>)
    ensures
        ({
            let file = EntryView { path, name, is_dir: false, mode };
            let dir = EntryView { path, name, is_dir: true, mode };
            let known = name == "sd-server"@ || name == "sd-cpp-server"@ || name == "server"@;
            &&& is_server(file, Platform::Other) <==> known
            &&& is_server(file, Platform::MacOs) <==> known
            &&& is_server(file, Platform::Windows) <==> exists|stem: Seq<char>|
                name == #[trigger] (stem + ".exe"@) && (stem == "sd-server"@ || stem
                    == "sd-cpp-server"@ || stem == "server"@)
            &&& forall|platform: Platform|
                !#[trigger] is_server(dir, platform) && !is_tool(dir, platform)
        }),
{
    reveal_strlit(".exe");
    reveal_strlit("sd-server");
    reveal_strlit("sd-cpp-server");
    reveal_strlit("server");
    reveal_strlit("sd-server.exe");
    reveal_strlit("sd-cpp-server.exe");
    reveal_strlit("server.exe");
    assert("sd-server"@ + ".exe"@ =~= "sd-server.exe"@);
    assert("sd-cpp-server"@ + ".exe"@ =~= "sd-cpp-server.exe"@);
    assert("server"@ + ".exe"@ =~= "server.exe"@);
}

/// The command line tool is called `sd` or `sd-cli`, with `.exe` behind it or not, on
/// every platform.
pub proof fn a_tool_is_known_by_its_name(
    name: Seq<char>,
    path: Seq<char>,
    mode: Option<u32>,
    platform: Platform,
)
    ensures
        ({
            let file = EntryView { path, name, is_dir: false, mode };
            let stem = name == "sd"@ || name == "sd-cli"@;
            let with_ending = name == "sd"@ + ".exe"@ || name == "sd-cli"@ + ".exe"@;
            &&& is_tool(file, platform) <==> stem || with_ending
            &&& !(is_tool(file, platform) && is_server(file, platform))
        }),
{
    reveal_strlit(".exe");
    reveal_strlit("sd");
    reveal_strlit("sd-cli");
    reveal_strlit("sd.exe");
    reveal_strlit("sd-cli.exe");
    reveal_strlit("sd-server");
    reveal_strlit("sd-cpp-server");
    reveal_strlit("server");
    reveal_strlit("sd-server.exe");
    reveal_strlit("sd-cpp-server.exe");
    reveal_strlit("server.exe");
    assert("sd"@ + ".exe"@ =~= "sd.exe"@);
    assert("sd-cli"@ + ".exe"@ =~= "sd-cli.exe"@);
    assert("sd.exe"@[2] != "server"@[2]);
    assert("sd-cli"@[0] == "server"@[0] && "sd-cli"@[1] != "server"@[1]);
    assert("sd.exe"@[1] != "server"@[1]);
    assert("sd-cli.exe"@[1] != "server.exe"@[1]);
}

/// The first server of a listing is a server, with none before it, and where there is no
/// first one there is none at all; and so it is with the command line tools.
pub proof fn the_first_of_a_listing_is_found(entries: Seq<EntryView>, platform: Platform)
    ensures
        match first_server(entries, platform) {
            Some(path) => exists|i: int|
                0 <= i < entries.len() && is_server(#[trigger] entries[i], platform)
                    && entries[i].path == path && forall|j: int|
                    0 <= j < i ==> !is_server(#[trigger] entries[j], platform),
            None => forall|i: int|
                0 <= i < entries.len() ==> !is_server(#[trigger] entries[i], platform),
        },
        match first_tool(entries, platform) {
            Some(path) => exists|i: int|
                0 <= i < entries.len() && is_tool(#[trigger] entries[i], platform)
                    && entries[i].path == path && forall|j: int|
                    0 <= j < i ==> !is_tool(#[trigger] entries[j], platform),
            None => forall|i: int|
                0 <= i < entries.len() ==> !is_tool(#[trigger] entries[i], platform),
        },
{
    lemma_no_server_place(entries, platform);
    let place = server_place(entries, platform);
    if place < entries.len() {
        assert(is_server(entries[place], platform));
    }
    lemma_first_tool(entries, platform);
}

proof fn lemma_first_tool(entries: Seq<EntryView>, platform: Platform)
    ensures
        match first_tool(entries, platform) {
            Some(path) => exists|i: int|
                0 <= i < entries.len() && is_tool(#[trigger] entries[i], platform)
                    && entries[i].path == path && forall|j: int|
                    0 <= j < i ==> !is_tool(#[trigger] entries[j], platform),
            None => forall|i: int|
                0 <= i < entries.len() ==> !is_tool(#[trigger] entries[i], platform),
        },
    decreases entries.len(),
{
    if entries.len() > 0 {
        let rest = entries.drop_last();
        let n = entries.len() - 1;
        lemma_first_tool(rest, platform);
        match first_tool(rest, platform) {
            Some(path) => {
                let i = choose|i: int|
                    0 <= i < rest.len() && is_tool(#[trigger] rest[i], platform) && rest[i].path
                        == path && forall|j: int|
                        0 <= j < i ==> !is_tool(#[trigger] rest[j], platform);
                assert(entries[i] == rest[i]);
                assert forall|j: int| 0 <= j < i implies !is_tool(
                    #[trigger] entries[j],
                    platform,
                ) by {
                    assert(entries[j] == rest[j]);
                }
            },
            None => {
                assert forall|j: int| 0 <= j < n implies !is_tool(
                    #[trigger] entries[j],
                    platform,
                ) by {
                    assert(entries[j] == rest[j]);
                }
                assert(entries[n] == entries.last());
            },
        }
    }
}

/// The directories of a listing that are still to be listed are all that it has, in their
/// order.
pub proof fn no_directory_is_passed_over(entries: Seq<EntryView>)
    ensures
        directories(entries) == entries.filter(|entry: EntryView| entry.is_dir).map_values(
            |entry: EntryView| entry.path,
        ),
    decreases entries.len(),
{
    reveal(Seq::filter);
    let dirs = entries.filter(|entry: EntryView| entry.is_dir);
    let paths = dirs.map_values(|entry: EntryView| entry.path);
    if entries.len() > 0 {
        let rest = entries.drop_last();
        no_directory_is_passed_over(rest);
        let before = rest.filter(|entry: EntryView| entry.is_dir);
        if entries.last().is_dir {
            assert(dirs == before.push(entries.last()));
            assert(paths =~= before.map_values(|entry: EntryView| entry.path).push(
                entries.last().path,
            ));
        }
    } else {
        assert(paths =~= Seq::empty());
    }
}

/// The permissions to be given are those of all files of a listing whose own could be
/// read, in their order, with the ones to read, write and run for the owner and to read
/// and run for everyone added, and no other.
pub proof fn permissions_are_only_added(entries: Seq<EntryView>, mode: u32)
    ensures
        mode_changes(entries) == entries.filter(
            |entry: EntryView| !entry.is_dir && entry.mode is Some,
        ).map_values(|entry: EntryView| (entry.path, (entry.mode->0 | 0o755) as u32)),
        executable_mode(mode) & !0o755u32 == mode & !0o755u32,
        executable_mode(mode) & 0o755 == 0o755,
    decreases entries.len(),
{
    assert((mode | 0o755) & !0o755u32 == mode & !0o755u32) by (bit_vector);
    assert((mode | 0o755) & 0o755 == 0o755) by (bit_vector);
    reveal(Seq::filter);
    let wanted = |entry: EntryView| !entry.is_dir && entry.mode is Some;
    let changed = |entry: EntryView| (entry.path, (entry.mode->0 | 0o755) as u32);
    let all = entries.filter(wanted).map_values(changed);
    if entries.len() > 0 {
        let rest = entries.drop_last();
        permissions_are_only_added(rest, mode);
        if wanted(entries.last()) {
            assert(entries.filter(wanted) == rest.filter(wanted).push(entries.last()));
            assert(all =~= rest.filter(wanted).map_values(changed).push(changed(entries.last())));
        }
    } else {
        assert(all =~= Seq::empty());
    }
}

/// A server that was found is run, and a command line tool only for want of one.
pub proof fn a_server_is_preferred_to_a_tool(search: ServerSearch)
    ensures
        search.found matches Some(path) ==> search.result() == Some(path@),
        search.found is None && search.fallback is Some ==> search.result() == Some(
            search.fallback->0@,
        ),
        search.found is None && search.fallback is None ==> search.result() is None,
{
}

} // verus!
