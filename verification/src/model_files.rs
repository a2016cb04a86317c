//! The model files on disk, as they are offered for configuration.

use crate::text::{
    decimal, decimal_text, ends_with, finishes_with, lemma_text_le_antisymmetric,
    lemma_text_le_total, lemma_text_le_transitive, lower_case, lowered, text_at_most, text_le,
    value_of,
};
use vstd::prelude::*;

verus! {

/// An entry of the directory of models.
#[derive(Debug, Clone, PartialEq)]
pub struct DiskEntry {
    pub name: String,
    pub path: String,
    pub is_file: bool,
    /// Its size in bytes, where it could be read.
    pub size: Option<u64>,
}

/// A model file to offer.
#[derive(Debug, Clone, PartialEq)]
pub struct ModelFile {
    pub name: String,
    pub path: String,
    /// Its size in bytes, in decimal.
    pub size_bytes: String,
}

/// A model file, as the contracts speak of it.
pub struct ModelView {
    pub name: Seq<char>,
    pub path: Seq<char>,
    pub size_bytes: Seq<char>,
}

impl View for ModelFile {
    type V = ModelView;

    open spec fn view(&self) -> ModelView {
        ModelView { name: self.name@, path: self.path@, size_bytes: self.size_bytes@ }
    }
}

/// The model files, as the contracts speak of them.
pub open spec fn model_views(files: Seq<ModelFile>) -> Seq<ModelView> {
    files.map_values(|file: ModelFile| file@)
}

/// A file whose name in lower case is `lower` holds a model.
pub open spec fn names_model_file(lower: Seq<char>) -> bool {
    finishes_with(lower, ".gguf"@) || finishes_with(lower, ".safetensors"@)
}

/// An entry is a model file.
pub open spec fn is_model_file(entry: DiskEntry) -> bool {
    entry.is_file && names_model_file(lowered(entry.name@))
}

/// The model file that an entry is offered as.
pub open spec fn model_of(entry: DiskEntry) -> ModelView {
    ModelView {
        name: entry.name@,
        path: entry.path@,
        size_bytes: decimal(
            match entry.size {
                Some(size) => size as nat,
                None => 0,
            },
        ),
    }
}

/// The model files among `entries`, in their order.
pub open spec fn models_among(entries: Seq<DiskEntry>) -> Seq<ModelView>
    decreases entries.len(),
{
    if entries.len() == 0 {
        Seq::empty()
    } else if is_model_file(entries.last()) {
        models_among(entries.drop_last()).push(model_of(entries.last()))
    } else {
        models_among(entries.drop_last())
    }
}

/// The files stand in the order of their names.
pub open spec fn is_sorted(files: Seq<ModelView>) -> bool {
    forall|i: int, j: int|
        0 <= i <= j < files.len() ==> text_le(#[trigger] files[i].name, #[trigger] files[j].name)
}

/// The files called `name`, in their order.
pub open spec fn called(files: Seq<ModelView>, name: Seq<char>) -> Seq<ModelView> {
    files.filter(|file: ModelView| file.name == name)
}

/// `sorted` holds the files of `files` in the order of their names, and those of one
/// name in the order that they had.
pub open spec fn is_stable_sort(files: Seq<ModelView>, sorted: Seq<ModelView>) -> bool {
    &&& is_sorted(sorted)
    &&& forall|name: Seq<char>| #[trigger] called(sorted, name) == called(files, name)
}

/// Whether a file whose name in lower case is `lower` holds a model.
pub fn is_model_name(lower: &str) -> (yes: bool)
    ensures
        yes == names_model_file(lower@),
{
    ends_with(lower, ".gguf") || ends_with(lower, ".safetensors")
}

proof fn lemma_insert_keeps_sort(
    files: Seq<ModelView>,
    sorted: Seq<ModelView>,
    file: ModelView,
    at: int,
)
    requires
        is_stable_sort(files, sorted),
        0 <= at <= sorted.len(),
        forall|i: int| 0 <= i < at ==> text_le(#[trigger] sorted[i].name, file.name),
        at < sorted.len() ==> !text_le(sorted[at].name, file.name),
    ensures
        is_stable_sort(files.push(file), sorted.insert(at, file)),
{
    let after = sorted.insert(at, file);
    let low = sorted.take(at);
    let high = sorted.skip(at);
    assert forall|i: int| at <= i < sorted.len() implies text_le(
        file.name,
        #[trigger] sorted[i].name,
    ) && sorted[i].name != file.name by {
        lemma_text_le_total(sorted[at].name, file.name);
        assert(text_le(sorted[at].name, sorted[i].name));
        lemma_text_le_transitive(file.name, sorted[at].name, sorted[i].name);
    }
    assert forall|i: int, j: int| 0 <= i <= j < after.len() implies text_le(
        #[trigger] after[i].name,
        #[trigger] after[j].name,
    ) by {
        let a = if i <= at {
            i
        } else {
            i - 1
        };
        let b = if j <= at {
            j
        } else {
            j - 1
        };
        if i == j {
            lemma_text_le_total(after[i].name, after[i].name);
        } else if j == at {
            assert(after[i] == sorted[i]);
        } else if i == at {
            assert(after[j] == sorted[b]);
        } else {
            assert(after[i] == sorted[a]);
            assert(after[j] == sorted[b]);
        }
    }
    assert forall|name: Seq<char>| #[trigger] called(after, name) == called(
        files.push(file),
        name,
    ) by {
        let pred = |f: ModelView| f.name == name;
        assert(called(sorted, name) == called(files, name));
        assert(sorted =~= low + high);
        assert(after =~= low + seq![file] + high);
        assert(files.push(file) =~= files + seq![file]);
        Seq::filter_distributes_over_add(low, high, pred);
        Seq::filter_distributes_over_add(low + seq![file], high, pred);
        Seq::filter_distributes_over_add(low, seq![file], pred);
        Seq::filter_distributes_over_add(files, seq![file], pred);
        if name == file.name {
            lemma_none_called(high, name);
            assert(low.filter(pred) + seq![file].filter(pred) + high.filter(pred) =~= low.filter(
                pred,
            ) + high.filter(pred) + seq![file].filter(pred));
        } else {
            lemma_none_called(seq![file], name);
            assert(low.filter(pred) + seq![file].filter(pred) + high.filter(pred) =~= low.filter(
                pred,
            ) + high.filter(pred) + seq![file].filter(pred));
        }
    }
}

proof fn lemma_none_called(files: Seq<ModelView>, name: Seq<char>)
    requires
        forall|i: int| 0 <= i < files.len() ==> (#[trigger] files[i]).name != name,
    ensures
        called(files, name) == Seq::<ModelView>::empty(),
    decreases files.len(),
{
    reveal(Seq::filter);
    if files.len() > 0 {
        assert(files[files.len() - 1].name != name);
        assert forall|i: int| 0 <= i < files.len() - 1 implies (
        #[trigger] files.drop_last()[i]).name != name by {
            assert(files[i].name != name);
        }
        lemma_none_called(files.drop_last(), name);
    }
}

/// Puts `file` in its place in `sorted`, after those of the same name.
fn insert_by_name(sorted: &mut Vec<ModelFile>, file: ModelFile, files: Ghost<Seq<ModelView>>)
    requires
        is_stable_sort(files@, model_views(old(sorted)@)),
    ensures
        is_stable_sort(files@.push(file@), model_views(final(sorted)@)),
{
    let ghost before = model_views(sorted@);
    let mut at: usize = 0;
    while at < sorted.len() && text_at_most(sorted[at].name.as_str(), file.name.as_str())
        invariant
            at <= sorted.len(),
            before == model_views(sorted@),
            forall|i: int| 0 <= i < at ==> text_le(#[trigger] before[i].name, file@.name),
        decreases sorted.len() - at,
    {
        assert(before[at as int].name == sorted@[at as int].name@);
        at += 1;
    }
    proof {
        if at < sorted.len() {
            assert(before[at as int].name == sorted@[at as int].name@);
        }
        lemma_insert_keeps_sort(files@, before, file@, at as int);
        assert(model_views(sorted@.insert(at as int, file)) =~= before.insert(at as int, file@));
    }
    sorted.insert(at, file);
}

/// The model files among `entries`, in the order of their names.
pub fn sdcpp_list_model_files(entries: &Vec<DiskEntry>) -> (files: Vec<ModelFile>)
    ensures
        is_stable_sort(models_among(entries@), model_views(files@)),
{
    let mut files: Vec<ModelFile> = Vec::new();
    proof {
        assert(entries@.take(0) =~= Seq::empty());
        assert(model_views(files@) =~= Seq::empty());
    }
    let mut i: usize = 0;
    while i < entries.len()
        invariant
            i <= entries.len(),
            is_stable_sort(models_among(entries@.take(i as int)), model_views(files@)),
        decreases entries.len() - i,
    {
        let entry = &entries[i];
        assert(entries@.take(i + 1).drop_last() =~= entries@.take(i as int));
        if entry.is_file {
            let lower = lower_case(entry.name.as_str());
            if is_model_name(lower.as_str()) {
                let size: u64 = match entry.size {
                    Some(size) => size,
                    None => 0,
                };
                let file = ModelFile {
                    name: entry.name.clone(),
                    path: entry.path.clone(),
                    size_bytes: decimal_text(size),
                };
                insert_by_name(&mut files, file, Ghost(models_among(entries@.take(i as int))));
            }
        }
        i += 1;
    }
    assert(entries@.take(entries@.len() as int) =~= entries@);
    files
}

/// The order of the files is settled: there is one way to sort them by name that
/// keeps those of one name in the order that they had.
pub proof fn stable_sort_is_settled(
    files: Seq<ModelView>,
    a: Seq<ModelView>,
    b: Seq<ModelView>,
)
    requires
        is_stable_sort(files, a),
        is_stable_sort(files, b),
    ensures
        a == b,
{
    assert forall|name: Seq<char>| #[trigger] called(a, name) == called(b, name) by {
        assert(called(files, name) == called(a, name));
        assert(called(files, name) == called(b, name));
    }
    lemma_sorted_alike(a, b);
}

proof fn lemma_called_last(files: Seq<ModelView>, name: Seq<char>)
    requires
        files.len() > 0,
    ensures
        called(files, name) == (if files.last().name == name {
            called(files.drop_last(), name).push(files.last())
        } else {
            called(files.drop_last(), name)
        }),
{
    reveal(Seq::filter);
}

/// The last of sorted files bears a name at least that of any file among them.
proof fn lemma_last_is_greatest(files: Seq<ModelView>, name: Seq<char>)
    requires
        is_sorted(files),
        called(files, name).len() > 0,
    ensures
        files.len() > 0,
        text_le(name, files.last().name),
{
    if forall|i: int| 0 <= i < files.len() ==> (#[trigger] files[i]).name != name {
        lemma_none_called(files, name);
    }
    let i = choose|i: int| 0 <= i < files.len() && (#[trigger] files[i]).name == name;
    assert(text_le(files[i].name, files[files.len() - 1].name));
}

proof fn lemma_sorted_alike(a: Seq<ModelView>, b: Seq<ModelView>)
    requires
        is_sorted(a),
        is_sorted(b),
        forall|name: Seq<char>| #[trigger] called(a, name) == called(b, name),
    ensures
        a == b,
    decreases a.len(),
{
    if a.len() == 0 {
        if b.len() > 0 {
            lemma_called_last(b, b.last().name);
            assert(called(a, b.last().name) == called(b, b.last().name));
            lemma_last_is_greatest(a, b.last().name);
        }
        assert(a =~= b);
    } else {
        let m = a.last().name;
        lemma_called_last(a, m);
        assert(called(a, m) == called(b, m));
        lemma_last_is_greatest(b, m);
        let n = b.last().name;
        lemma_called_last(b, n);
        assert(called(a, n) == called(b, n));
        lemma_last_is_greatest(a, n);
        lemma_text_le_antisymmetric(m, n);
        assert(called(a, m).last() == a.last());
        assert(called(b, m).last() == b.last());
        assert forall|name: Seq<char>| #[trigger] called(a.drop_last(), name) == called(
            b.drop_last(),
            name,
        ) by {
            assert(called(a, name) == called(b, name));
            lemma_called_last(a, name);
            lemma_called_last(b, name);
            if name == m {
                assert(called(a, m).drop_last() =~= called(a.drop_last(), m));
                assert(called(b, m).drop_last() =~= called(b.drop_last(), m));
            }
        }
        lemma_sorted_alike(a.drop_last(), b.drop_last());
        assert(a =~= a.drop_last().push(a.last()));
        assert(b =~= b.drop_last().push(b.last()));
    }
}

/// A file holds a model exactly where its name, in lower case, has one of the two endings.
pub proof fn a_model_is_known_by_its_ending(entry: DiskEntry)
    ensures
        is_model_file(entry) <==> entry.is_file && ((exists|stem: Seq<char>| lowered(entry.name@)
            == #[trigger] (stem + ".gguf"@)) || (exists|stem: Seq<char>| lowered(entry.name@)
            == #[trigger] (stem + ".safetensors"@))),
{
    crate::text::an_ending_leaves_a_rest(lowered(entry.name@), ".gguf"@);
    crate::text::an_ending_leaves_a_rest(lowered(entry.name@), ".safetensors"@);
}

/// A model file is offered by its own name and path, and with its size in decimal, which is
/// zero where it could not be read.
pub proof fn a_model_is_offered_as_it_is(entry: DiskEntry)
    ensures
        model_of(entry).name == entry.name@,
        model_of(entry).path == entry.path@,
        entry.size matches Some(size) ==> value_of(model_of(entry).size_bytes) == size,
        entry.size is None ==> value_of(model_of(entry).size_bytes) == 0,
        model_of(entry).size_bytes.len() > 0,
        model_of(entry).size_bytes.len() > 1 ==> model_of(entry).size_bytes[0] != '0',
{
    let size: nat = match entry.size {
        Some(size) => size as nat,
        None => 0,
    };
    crate::text::decimal_is_read_back(size);
}

/// All model files are offered, each as often as it is there and in its turn, and nothing
/// else is.
pub proof fn all_models_are_offered(entries: Seq<DiskEntry>)
    ensures
        models_among(entries) == entries.filter(|entry: DiskEntry| is_model_file(entry)).map_values(
            |entry: DiskEntry| model_of(entry),
        ),
    decreases entries.len(),
{
    reveal(Seq::filter);
    let wanted = |entry: DiskEntry| is_model_file(entry);
    let made = |entry: DiskEntry| model_of(entry);
    let all = entries.filter(wanted).map_values(made);
    if entries.len() > 0 {
        let rest = entries.drop_last();
        all_models_are_offered(rest);
        if wanted(entries.last()) {
            assert(entries.filter(wanted) == rest.filter(wanted).push(entries.last()));
            assert(all =~= rest.filter(wanted).map_values(made).push(made(entries.last())));
        }
    } else {
        assert(all =~= Seq::empty());
    }
}

/// Sorting loses no file and adds none, puts none before one whose name comes earlier, and
/// leaves two of one name as they were.
pub proof fn sorting_only_moves_files(
    files: Seq<ModelView>,
    sorted: Seq<ModelView>,
    file: ModelView,
)
    requires
        is_stable_sort(files, sorted),
    ensures
        sorted.contains(file) <==> files.contains(file),
        sorted.filter(|other: ModelView| other.name == file.name) == files.filter(
            |other: ModelView| other.name == file.name,
        ),
        forall|i: int, j: int|
            0 <= i < j < sorted.len() ==> text_le(
                (#[trigger] sorted[i]).name,
                (#[trigger] sorted[j]).name,
            ),
{
    let same = |other: ModelView| other.name == file.name;
    assert(called(sorted, file.name) == called(files, file.name));
    assert(called(sorted, file.name) == sorted.filter(same));
    assert(called(files, file.name) == files.filter(same));
    lemma_filter_keeps(sorted, file);
    lemma_filter_keeps(files, file);
}

proof fn lemma_filter_keeps(files: Seq<ModelView>, file: ModelView)
    ensures
        files.contains(file) <==> files.filter(
            |other: ModelView| other.name == file.name,
        ).contains(file),
    decreases files.len(),
{
    reveal(Seq::filter);
    let same = |other: ModelView| other.name == file.name;
    if files.len() > 0 {
        let rest = files.drop_last();
        lemma_filter_keeps(rest, file);
        let n = files.len() - 1;
        if files.contains(file) {
            let i = files.index_of(file);
            if i < n {
                assert(rest[i] == file);
                let k = rest.filter(same).index_of(file);
                assert(files.filter(same)[k] == file);
            } else {
                assert(files.filter(same)[rest.filter(same).len() as int] == file);
            }
        }
        if files.filter(same).contains(file) {
            let k = files.filter(same).index_of(file);
            if k < rest.filter(same).len() {
                assert(rest.filter(same)[k] == file);
                assert(files[rest.index_of(file)] == file);
            } else {
                assert(files[n] == file);
            }
        }
    }
}

} // verus!
