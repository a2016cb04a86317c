//! The registry's models: what becomes a model when files are imported or come
//! from a repository, and which files go with a model that is removed.

use crate::paths::{
    is_below, is_named_under, is_plain, is_rooted, is_share, is_verdict, leads_into,
    path_starts_with,
};
use crate::text::{
    after_last, blank, is_blank, last_part, push_text, shows_something, text_eq, texts, trim, trimmed,
};
use vstd::prelude::*;

verus! {

/// A family of models. The name tells one from another.
#[derive(Debug, Clone, PartialEq)]
pub struct SdFamily {
    pub name: String,
    /// What the identifiers of its models begin with.
    pub prefix: String,
}

/// The files of a model, by the part that each plays.
#[derive(Debug, Clone, PartialEq)]
pub struct SdModelFiles {
    pub checkpoint: Option<String>,
    pub diffusion_model: Option<String>,
    pub clip_l: Option<String>,
    pub clip_g: Option<String>,
    pub t5xxl: Option<String>,
    pub vae: Option<String>,
}

/// A model of the registry.
#[derive(Debug, Clone, PartialEq)]
pub struct SdModelEntry {
    pub id: String,
    pub name: String,
    pub family: SdFamily,
    pub total_bytes: u64,
    pub files: SdModelFiles,
    /// Where the model came from.
    pub source: String,
    pub repo: Option<String>,
    /// When it came, in milliseconds.
    pub created_at: u64,
}

// ----------------------------------------------------------------------------
// Identifiers
// ----------------------------------------------------------------------------

/// A hexadecimal digit in lower case.
pub open spec fn is_hex_digit(c: char) -> bool {
    '0' <= c <= '9' || 'a' <= c <= 'f'
}

/// A random UUID as it is written: 36 characters, four of them hyphens, the version
/// four and the variant of RFC 9562 in their places.
pub open spec fn is_random_uuid(text: Seq<char>) -> bool {
    &&& text.len() == 36
    &&& forall|i: int|
        0 <= i < 36 ==> if i == 8 || i == 13 || i == 18 || i == 23 {
            #[trigger] text[i] == '-'
        } else {
            is_hex_digit(text[i])
        }
    &&& text[14] == '4'
    &&& text[19] == '8' || text[19] == '9' || text[19] == 'a' || text[19] == 'b'
}

/// `uuid::Uuid::new_v4`, written out: a random UUID. Which one is left to chance.
#[verifier::external_body]
fn new_uuid() -> (text: String)
    ensures
        is_random_uuid(text@),
{
    uuid::Uuid::new_v4().to_string()
}

/// The identifier of a model of `family` that has `uuid`.
pub open spec fn id_of(family: SdFamily, uuid: Seq<char>) -> Seq<char> {
    family.prefix@ + "-"@ + uuid
}

/// An identifier that a new model of `family` may get.
pub open spec fn is_new_id(family: SdFamily, id: Seq<char>) -> bool {
    exists|uuid: Seq<char>| #[trigger] is_random_uuid(uuid) && id == id_of(family, uuid)
}

/// The identifier of a model of `family` that has `uuid`.
pub fn model_id(family: &SdFamily, uuid: &str) -> (id: String)
    ensures
        id@ == id_of(*family, uuid@),
{
    let mut id = family.prefix.clone();
    id.append("-");
    id.append(uuid);
    id
}

/// An identifier for a new model of `family`.
pub fn new_model_id(family: &SdFamily) -> (id: String)
    ensures
        is_new_id(*family, id@),
{
    let uuid = new_uuid();
    model_id(family, uuid.as_str())
}

/// `entry` is a new model of these.
pub open spec fn is_entry_of(
    entry: SdModelEntry,
    family: SdFamily,
    name: Seq<char>,
    files: SdModelFiles,
    total_bytes: u64,
    source: Seq<char>,
    repo: Option<String>,
    created_at: u64,
) -> bool {
    &&& is_new_id(family, entry.id@)
    &&& entry.name@ == name
    &&& entry.family == family
    &&& entry.total_bytes == total_bytes
    &&& entry.files == files
    &&& entry.source@ == source
    &&& entry.repo == repo
    &&& entry.created_at == created_at
}

// ----------------------------------------------------------------------------
// Importing
// ----------------------------------------------------------------------------

/// Files that can become a model.
#[derive(Debug, Clone, PartialEq)]
pub struct ImportPlan {
    pub family: SdFamily,
    pub name: String,
    pub files: SdModelFiles,
}

/// The message where a family is unknown.
pub open spec fn unknown_family_message(text: Seq<char>) -> Seq<char> {
    "Unknown family: "@ + text
}

fn unknown_family(text: &str) -> (message: String)
    ensures
        message@ == unknown_family_message(text@),
{
    let mut message = "Unknown family: ".to_string();
    message.append(text);
    message
}

/// Why files cannot become a model called `name`, if they cannot: `known` tells whether
/// the family that `family_text` names is known, and `count` how many files there are.
pub open spec fn import_refusal(
    known: bool,
    family_text: Seq<char>,
    name: Seq<char>,
    count: nat,
) -> Option<Seq<char>> {
    if !known {
        Some(unknown_family_message(family_text))
    } else if is_blank(name) {
        Some("Model name is required"@)
    } else if count == 0 {
        Some("At least one model file is required"@)
    } else {
        None
    }
}

/// Whether `files` can become a model called `name`. `family` is the family that
/// `family_text` names, and `paths` are the paths of the files.
pub fn sd_import_model(
    family: Option<SdFamily>,
    family_text: &str,
    name: &str,
    files: SdModelFiles,
    paths: &Vec<String>,
) -> (plan: Result<ImportPlan, String>)
    ensures
        plan is Ok <==> import_refusal(family is Some, family_text@, name@, paths@.len()) is None,
        plan matches Err(message) ==> import_refusal(
            family is Some,
            family_text@,
            name@,
            paths@.len(),
        ) == Some(message@),
        plan is Ok <==> family is Some && !is_blank(name@) && paths@.len() > 0,
        family is None ==> plan->Err_0@ == unknown_family_message(family_text@),
        family is Some && is_blank(name@) ==> plan->Err_0@ == "Model name is required"@,
        family is Some && !is_blank(name@) && paths@.len() == 0 ==> plan->Err_0@
            == "At least one model file is required"@,
        plan matches Ok(plan) ==> plan.family == family->0 && plan.name@ == trimmed(name@)
            && plan.files == files,
{
    let family = match family {
        Some(family) => family,
        None => return Err(unknown_family(family_text)),
    };
    let name = trim(name);
    if name.is_empty() {
        return Err("Model name is required".to_string());
    }
    if paths.len() == 0 {
        return Err("At least one model file is required".to_string());
    }
    Ok(ImportPlan { family, name: name.to_string(), files })
}

impl ImportPlan {
    /// The model that the files become. `created_at` is the time, or why it is not
    /// known.
    pub fn into_entry(self, total_bytes: u64, created_at: Result<u64, String>) -> (entry: Result<
        SdModelEntry,
        String,
    >)
        ensures
            created_at matches Err(message) ==> entry == Err::<SdModelEntry, String>(message),
            created_at matches Ok(created_at) ==> entry matches Ok(entry) && {
                &&& is_entry_of(
                    entry,
                    self.family,
                    self.name@,
                    self.files,
                    total_bytes,
                    "imported"@,
                    None,
                    created_at,
                )
                &&& is_new_id(self.family, entry.id@)
                &&& entry.name == self.name
                &&& entry.family == self.family
                &&& entry.total_bytes == total_bytes
                &&& entry.files == self.files
                &&& entry.source@ == "imported"@
                &&& entry.repo is None
                &&& entry.created_at == created_at
            },
    {
        match created_at {
            Ok(created_at) => Ok(
                SdModelEntry {
                    id: new_model_id(&self.family),
                    name: self.name,
                    family: self.family,
                    total_bytes,
                    files: self.files,
                    source: "imported".to_string(),
                    repo: None,
                    created_at,
                },
            ),
            Err(message) => Err(message),
        }
    }
}

// ----------------------------------------------------------------------------
// Models of a repository
// ----------------------------------------------------------------------------

impl SdModelFiles {
    /// No files.
    pub open spec fn nothing() -> SdModelFiles {
        SdModelFiles {
            checkpoint: None,
            diffusion_model: None,
            clip_l: None,
            clip_g: None,
            t5xxl: None,
            vae: None,
        }
    }

    /// How many files there are.
    pub open spec fn count(&self) -> int {
        (if self.checkpoint is Some {
            1int
        } else {
            0
        }) + (if self.diffusion_model is Some {
            1int
        } else {
            0
        }) + (if self.clip_l is Some {
            1int
        } else {
            0
        }) + (if self.clip_g is Some {
            1int
        } else {
            0
        }) + (if self.t5xxl is Some {
            1int
        } else {
            0
        }) + (if self.vae is Some {
            1int
        } else {
            0
        })
    }
}

impl Default for SdModelFiles {
    fn default() -> (files: Self)
        ensures
            files == SdModelFiles::nothing(),
    {
        SdModelFiles {
            checkpoint: None,
            diffusion_model: None,
            clip_l: None,
            clip_g: None,
            t5xxl: None,
            vae: None,
        }
    }
}

/// The one file `path` that plays the part `role`; nothing where there is no such
/// part.
pub open spec fn files_for_role(role: Seq<char>, path: String) -> Option<SdModelFiles> {
    let none = SdModelFiles::nothing();
    if role == "checkpoint"@ {
        Some(SdModelFiles { checkpoint: Some(path), ..none })
    } else if role == "diffusionModel"@ {
        Some(SdModelFiles { diffusion_model: Some(path), ..none })
    } else if role == "clipL"@ {
        Some(SdModelFiles { clip_l: Some(path), ..none })
    } else if role == "clipG"@ {
        Some(SdModelFiles { clip_g: Some(path), ..none })
    } else if role == "t5xxl"@ {
        Some(SdModelFiles { t5xxl: Some(path), ..none })
    } else if role == "vae"@ {
        Some(SdModelFiles { vae: Some(path), ..none })
    } else {
        None
    }
}

/// The one file `path` that plays the part `role`.
pub fn assign_role(role: &str, path: String) -> (files: Result<SdModelFiles, String>)
    ensures
        files is Ok <==> files_for_role(role@, path) is Some,
        files is Ok ==> files->Ok_0 == files_for_role(role@, path)->0,
        files matches Err(message) ==> message@ == "Unknown file role: "@ + role@,
{
    let mut files = SdModelFiles::default();
    if text_eq(role, "checkpoint") {
        files.checkpoint = Some(path);
    } else if text_eq(role, "diffusionModel") {
        files.diffusion_model = Some(path);
    } else if text_eq(role, "clipL") {
        files.clip_l = Some(path);
    } else if text_eq(role, "clipG") {
        files.clip_g = Some(path);
    } else if text_eq(role, "t5xxl") {
        files.t5xxl = Some(path);
    } else if text_eq(role, "vae") {
        files.vae = Some(path);
    } else {
        let mut message = "Unknown file role: ".to_string();
        message.append(role);
        return Err(message);
    }
    Ok(files)
}

/// A file of a repository that is to belong to a model.
#[derive(Debug, Clone, PartialEq)]
pub struct HfRegistration {
    pub family: SdFamily,
    pub files: SdModelFiles,
}

/// What a registration comes to.
#[derive(Debug, Clone, PartialEq)]
pub enum HfStep {
    /// The model `id` gets the files.
    Update { id: String, files: SdModelFiles },
    /// The files become a new model.
    Create(HfRegistration),
}

/// Why a file cannot belong to a model in the part `role`, if it cannot: `known` tells
/// whether the family that `family_text` names is known.
pub open spec fn registration_refusal(
    known: bool,
    family_text: Seq<char>,
    file_path: String,
    is_file: bool,
    role: Seq<char>,
) -> Option<Seq<char>> {
    if !known {
        Some(unknown_family_message(family_text))
    } else if !is_file {
        Some("File not found: "@ + file_path@)
    } else if files_for_role(role, file_path) is None {
        Some("Unknown file role: "@ + role)
    } else {
        None
    }
}

/// Whether the file `file_path` can belong to a model in the part `role`. `family` is
/// the family that `family_text` names, and `is_file` tells whether the file is there.
pub fn sd_register_hf_model(
    family: Option<SdFamily>,
    family_text: &str,
    file_path: String,
    is_file: bool,
    role: &str,
) -> (registration: Result<HfRegistration, String>)
    ensures
        registration is Ok <==> registration_refusal(
            family is Some,
            family_text@,
            file_path,
            is_file,
            role@,
        ) is None,
        registration matches Err(message) ==> registration_refusal(
            family is Some,
            family_text@,
            file_path,
            is_file,
            role@,
        ) == Some(message@),
        registration is Ok <==> family is Some && is_file && files_for_role(role@, file_path)
            is Some,
        family is None ==> registration->Err_0@ == unknown_family_message(family_text@),
        family is Some && !is_file ==> registration->Err_0@ == "File not found: "@ + file_path@,
        family is Some && is_file && files_for_role(role@, file_path) is None
            ==> registration->Err_0@ == "Unknown file role: "@ + role@,
        registration matches Ok(registration) ==> registration.family == family->0
            && registration.files == files_for_role(role@, file_path)->0,
{
    let family = match family {
        Some(family) => family,
        None => return Err(unknown_family(family_text)),
    };
    if !is_file {
        let mut message = "File not found: ".to_string();
        message.append(file_path.as_str());
        return Err(message);
    }
    match assign_role(role, file_path) {
        Ok(files) => Ok(HfRegistration { family, files }),
        Err(message) => Err(message),
    }
}

/// The name of a model of the repository `repo`: the one to show, where it is given,
/// and else the last part of the repository's.
pub open spec fn name_for(display_name: Option<String>, repo: Seq<char>) -> Seq<char> {
    match display_name {
        Some(name) => if is_blank(name@) {
            after_last(repo, '/')
        } else {
            name@
        },
        None => after_last(repo, '/'),
    }
}

/// What a registration comes to, where `existing` is the model of the same repository, if
/// there is one.
pub open spec fn decided(
    registration: HfRegistration,
    existing: Option<SdModelEntry>,
) -> HfStep {
    match existing {
        Some(existing) if existing.family.name@ == registration.family.name@ => HfStep::Update {
            id: existing.id,
            files: registration.files,
        },
        _ => HfStep::Create(registration),
    }
}

impl HfRegistration {
    /// Whether the files go to `existing`, the model of the same repository, or become
    /// a new one: they go to it where it is of the same family.
    pub fn decide(self, existing: Option<&SdModelEntry>) -> (step: HfStep)
        ensures
            step == decided(
                self,
                match existing {
                    Some(existing) => Some(*existing),
                    None => None,
                },
            ),
            ({
                if existing is Some && existing->0.family.name@ == self.family.name@ {
                    step == HfStep::Update { id: existing->0.id, files: self.files }
                } else {
                    step == HfStep::Create(self)
                }
            }),
    {
        if let Some(existing) = existing {
            if text_eq(existing.family.name.as_str(), self.family.name.as_str()) {
                return HfStep::Update { id: existing.id.clone(), files: self.files };
            }
        }
        HfStep::Create(self)
    }

    /// The model that the files become. `created_at` is the time, or why it is not
    /// known.
    pub fn into_entry(
        self,
        display_name: Option<String>,
        repo: String,
        total_bytes: u64,
        created_at: Result<u64, String>,
    ) -> (entry: Result<SdModelEntry, String>)
        ensures
            created_at matches Err(message) ==> entry == Err::<SdModelEntry, String>(message),
            created_at matches Ok(created_at) ==> entry matches Ok(entry) && {
                &&& is_entry_of(
                    entry,
                    self.family,
                    name_for(display_name, repo@),
                    self.files,
                    total_bytes,
                    "hf"@,
                    Some(repo),
                    created_at,
                )
                &&& is_new_id(self.family, entry.id@)
                &&& entry.name@ == name_for(display_name, repo@)
                &&& entry.family == self.family
                &&& entry.total_bytes == total_bytes
                &&& entry.files == self.files
                &&& entry.source@ == "hf"@
                &&& entry.repo == Some(repo)
                &&& entry.created_at == created_at
            },
    {
        let created_at: u64 = match created_at {
            Ok(created_at) => created_at,
            Err(message) => return Err(message),
        };
        let name = model_name(display_name, repo.as_str());
        Ok(
            SdModelEntry {
                id: new_model_id(&self.family),
                name,
                family: self.family,
                total_bytes,
                files: self.files,
                source: "hf".to_string(),
                repo: Some(repo),
                created_at,
            },
        )
    }
}

/// The name of a model of the repository `repo`.
pub fn model_name(display_name: Option<String>, repo: &str) -> (name: String)
    ensures
        name@ == name_for(display_name, repo@),
{
    if let Some(name) = display_name {
        if !blank(name.as_str()) {
            return name;
        }
    }
    last_part(repo, '/').to_string()
}

// ----------------------------------------------------------------------------
// Removing
// ----------------------------------------------------------------------------

/// Those of `paths` whose flag is up, in order.
pub open spec fn flagged(paths: Seq<Seq<char>>, flags: Seq<bool>) -> Seq<Seq<char>>
    recommends
        paths.len() == flags.len(),
    decreases paths.len(),
{
    if paths.len() == 0 {
        Seq::empty()
    } else if flags.last() {
        flagged(paths.drop_last(), flags.drop_last()).push(paths.last())
    } else {
        flagged(paths.drop_last(), flags.drop_last())
    }
}

/// What is known of whether each of `paths` was found to be `root` or below it.
pub open spec fn are_verdicts(inside: Seq<bool>, paths: Seq<Seq<char>>, root: Seq<char>) -> bool {
    &&& inside.len() == paths.len()
    &&& forall|i: int|
        0 <= i < paths.len() ==> is_verdict(#[trigger] inside[i], paths[i], root)
}

/// A file that belongs to a model.
#[derive(Debug, Clone, PartialEq)]
pub struct KeptFile {
    pub path: String,
    /// There is a file of that path.
    pub is_file: bool,
}

/// The paths of the files.
pub open spec fn kept_paths(files: Seq<KeptFile>) -> Seq<Seq<char>> {
    files.map_values(|file: KeptFile| file.path@)
}

/// Those of `files` that are there and were found to be inside.
pub open spec fn deleted(files: Seq<KeptFile>, inside: Seq<bool>) -> Seq<Seq<char>> {
    flagged(kept_paths(files), Seq::new(files.len(), |i: int| inside[i] && files[i].is_file))
}

/// The paths of those of `files` that are there and were found to be inside, in order.
pub fn files_to_delete(files: &Vec<KeptFile>, inside: &Vec<bool>) -> (selected: Vec<String>)
    requires
        files@.len() == inside@.len(),
    ensures
        texts(selected@) == deleted(files@, inside@),
{
    let ghost all = kept_paths(files@);
    let ghost flags = Seq::new(files@.len(), |i: int| inside@[i] && files@[i].is_file);
    let mut selected: Vec<String> = Vec::new();
    assert(all.take(0) =~= Seq::empty());
    assert(texts(selected@) =~= Seq::empty());
    let mut i: usize = 0;
    while i < files.len()
        invariant
            i <= files.len(),
            files@.len() == inside@.len(),
            all == kept_paths(files@),
            flags == Seq::new(files@.len(), |i: int| inside@[i] && files@[i].is_file),
            texts(selected@) == flagged(all.take(i as int), flags.take(i as int)),
        decreases files.len() - i,
    {
        proof {
            assert(all.take(i + 1).drop_last() =~= all.take(i as int));
            assert(flags.take(i + 1).drop_last() =~= flags.take(i as int));
        }
        if inside[i] && files[i].is_file {
            push_text(&mut selected, files[i].path.as_str());
        }
        i += 1;
    }
    assert(all.take(files@.len() as int) =~= all);
    assert(flags.take(files@.len() as int) =~= flags);
    selected
}

/// The paths `selected` may be deleted when the model of the files `removed`, if there was
/// one, was removed.
pub open spec fn may_be_deleted(
    selected: Seq<Seq<char>>,
    removed: Option<Seq<KeptFile>>,
    delete_files: bool,
    root: Seq<char>,
) -> bool {
    if removed is Some && delete_files {
        exists|inside: Seq<bool>|
            are_verdicts(inside, kept_paths(removed->0), root) && selected == #[trigger] deleted(
                removed->0,
                inside,
            )
    } else {
        selected.len() == 0
    }
}

/// What the removal of a model comes to: whether one was removed, and the files to
/// delete with it. `removed` holds the files of the model that was removed from the
/// registry, if there was one. Only files in the directory of models, `models_root`,
/// are deleted, and only where that was asked for.
pub fn sd_delete_model(
    removed: Option<Vec<KeptFile>>,
    delete_files: bool,
    models_root: &str,
) -> (outcome: (bool, Vec<String>))
    ensures
        may_be_deleted(
            texts(outcome.1@),
            match removed {
                Some(files) => Some(files@),
                None => None,
            },
            delete_files,
            models_root@,
        ),
        outcome.0 == (removed is Some),
        removed is None || !delete_files ==> outcome.1@.len() == 0,
        removed is Some && delete_files ==> exists|inside: Seq<bool>|
            are_verdicts(inside, kept_paths(removed->0@), models_root@) && texts(outcome.1@)
                == #[trigger] deleted(removed->0@, inside),
{
    let files = match removed {
        Some(files) => files,
        None => return (false, Vec::new()),
    };
    if !delete_files {
        return (true, Vec::new());
    }
    let mut inside: Vec<bool> = Vec::new();
    let mut i: usize = 0;
    while i < files.len()
        invariant
            i <= files.len(),
            inside@.len() == i,
            forall|j: int|
                0 <= j < i ==> is_verdict(#[trigger] inside@[j], files@[j].path@, models_root@),
        decreases files.len() - i,
    {
        inside.push(path_starts_with(files[i].path.as_str(), models_root));
        i += 1;
    }
    let selected = files_to_delete(&files, &inside);
    proof {
        let kept = Some(files@);
        assert(are_verdicts(inside@, kept_paths(kept->0), models_root@) && texts(selected@)
            == deleted(kept->0, inside@));
        assert(may_be_deleted(texts(selected@), kept, true, models_root@));
    }
    (true, selected)
}

// ----------------------------------------------------------------------------
// Laws
// ----------------------------------------------------------------------------

/// A file of a repository plays one part.
pub proof fn a_role_is_one_file(role: Seq<char>, path: String)
    ensures
        files_for_role(role, path) matches Some(files) ==> files.count() == 1,
{
}

/// Nothing is deleted but what was found to be inside: each path that is selected is
/// one of those given, with its flag up, and each of those is selected.
pub proof fn only_flagged_paths_are_selected(
    paths: Seq<Seq<char>>,
    flags: Seq<bool>,
    path: Seq<char>,
)
    requires
        paths.len() == flags.len(),
    ensures
        flagged(paths, flags).contains(path) <==> exists|i: int|
            0 <= i < paths.len() && #[trigger] paths[i] == path && flags[i],
    decreases paths.len(),
{
    if paths.len() > 0 {
        let rest = paths.drop_last();
        let rest_flags = flags.drop_last();
        only_flagged_paths_are_selected(rest, rest_flags, path);
        let n = paths.len() - 1;
        let earlier = flagged(rest, rest_flags);
        let all = flagged(paths, flags);
        if all.contains(path) {
            let k = all.index_of(path);
            if k < earlier.len() {
                assert(earlier[k] == path);
                let i = choose|i: int|
                    0 <= i < rest.len() && #[trigger] rest[i] == path && rest_flags[i];
                assert(paths[i] == path && flags[i]);
            } else {
                assert(paths[n] == path && flags[n]);
            }
        }
        if exists|i: int| 0 <= i < paths.len() && #[trigger] paths[i] == path && flags[i] {
            let i = choose|i: int| 0 <= i < paths.len() && #[trigger] paths[i] == path && flags[i];
            if i < n {
                assert(rest[i] == path && rest_flags[i]);
                let k = earlier.index_of(path);
                assert(all[k] == path);
            } else {
                assert(all.last() == path);
            }
        }
    }
}

/// With a model, exactly those of its files are deleted that are there and lie in the
/// directory of models, where the paths are plain.
pub proof fn only_files_inside_are_deleted(
    files: Seq<KeptFile>,
    inside: Seq<bool>,
    root: Seq<char>,
)
    requires
        are_verdicts(inside, kept_paths(files), root),
        is_plain(root),
        forall|i: int| 0 <= i < files.len() ==> is_plain((#[trigger] files[i]).path@),
    ensures
        deleted(files, inside) == kept_paths(
            files.filter(|file: KeptFile| file.is_file && is_below(file.path@, root)),
        ),
    decreases files.len(),
{
    reveal(Seq::filter);
    let wanted = |file: KeptFile| file.is_file && is_below(file.path@, root);
    if files.len() > 0 {
        let rest = files.drop_last();
        let rest_inside = inside.drop_last();
        let last = files.len() - 1;
        assert forall|i: int| 0 <= i < rest.len() implies is_verdict(
            #[trigger] rest_inside[i],
            kept_paths(rest)[i],
            root,
        ) by {
            assert(rest_inside[i] == inside[i]);
            assert(kept_paths(rest)[i] == kept_paths(files)[i]);
        }
        assert forall|i: int| 0 <= i < rest.len() implies is_plain((#[trigger] rest[i]).path@) by {
            assert(rest[i] == files[i]);
        }
        only_files_inside_are_deleted(rest, rest_inside, root);
        assert(is_verdict(inside[last], kept_paths(files)[last], root));
        assert(is_plain(files[last].path@));
        let flags = Seq::new(files.len(), |i: int| inside[i] && files[i].is_file);
        assert(flags.drop_last() =~= Seq::new(
            rest.len(),
            |i: int| rest_inside[i] && rest[i].is_file,
        ));
        assert(kept_paths(files).drop_last() =~= kept_paths(rest));
        if wanted(files[last]) {
            assert(kept_paths(rest.filter(wanted).push(files[last])) =~= kept_paths(
                rest.filter(wanted),
            ).push(files[last].path@));
        }
    } else {
        assert(kept_paths(files.filter(wanted)) =~= Seq::empty());
    }
}

/// Nothing is deleted outside the directory of models, where its path starts at a root:
/// whatever the other paths are, a path that is deleted is that of a file of the model
/// that is there, and leads into the directory.
pub proof fn nothing_outside_is_deleted(
    files: Seq<KeptFile>,
    inside: Seq<bool>,
    root: Seq<char>,
    path: Seq<char>,
)
    requires
        are_verdicts(inside, kept_paths(files), root),
        is_rooted(root),
        deleted(files, inside).contains(path),
    ensures
        leads_into(path, root),
        exists|i: int| 0 <= i < files.len() && #[trigger] files[i].path@ == path && files[i].is_file,
{
    let paths = kept_paths(files);
    let flags = Seq::new(files.len(), |i: int| inside[i] && files[i].is_file);
    only_flagged_paths_are_selected(paths, flags, path);
    let i = choose|i: int| 0 <= i < paths.len() && #[trigger] paths[i] == path && flags[i];
    assert(is_verdict(inside[i], paths[i], root));
    assert(files[i].path@ == path);
}

/// A file of a model that is there is deleted with it where it is named under the
/// directory of models, whatever the other paths are.
pub proof fn what_is_named_under_the_root_is_deleted(
    files: Seq<KeptFile>,
    inside: Seq<bool>,
    root: Seq<char>,
    place: int,
)
    requires
        are_verdicts(inside, kept_paths(files), root),
        root.len() > 1,
        !is_share(root),
        0 <= place < files.len(),
        files[place].is_file,
        is_named_under(files[place].path@, root),
    ensures
        deleted(files, inside).contains(files[place].path@),
{
    let paths = kept_paths(files);
    let flags = Seq::new(files.len(), |i: int| inside[i] && files[i].is_file);
    only_flagged_paths_are_selected(paths, flags, files[place].path@);
    assert(is_verdict(inside[place], paths[place], root));
    assert(paths[place] == files[place].path@ && flags[place]);
}

/// Files become a model exactly where their family is known, something in the name can be
/// seen and there is a file; else the first of these that is wanting is told.
pub proof fn an_import_is_refused_for_what_is_wanting(
    known: bool,
    family_text: Seq<char>,
    name: Seq<char>,
    count: nat,
)
    ensures
        ({
            let refusal = import_refusal(known, family_text, name, count);
            &&& refusal is None <==> known && shows_something(name) && count > 0
            &&& !known ==> refusal == Some("Unknown family: "@ + family_text)
            &&& known && !shows_something(name) ==> refusal == Some("Model name is required"@)
            &&& known && shows_something(name) && count == 0 ==> refusal == Some(
                "At least one model file is required"@,
            )
        }),
{
    crate::text::blank_shows_nothing(name);
}

/// The part that a file plays is the place that it gets: each of the six parts has a place
/// of its own, and there are no others.
pub proof fn each_role_has_its_place(role: Seq<char>, path: String)
    ensures
        ({
            let files = files_for_role(role, path);
            &&& files is Some <==> role == "checkpoint"@ || role == "diffusionModel"@ || role
                == "clipL"@ || role == "clipG"@ || role == "t5xxl"@ || role == "vae"@
            &&& role == "checkpoint"@ ==> files->0.checkpoint == Some(path)
            &&& role == "diffusionModel"@ ==> files->0.diffusion_model == Some(path)
            &&& role == "clipL"@ ==> files->0.clip_l == Some(path)
            &&& role == "clipG"@ ==> files->0.clip_g == Some(path)
            &&& role == "t5xxl"@ ==> files->0.t5xxl == Some(path)
            &&& role == "vae"@ ==> files->0.vae == Some(path)
            &&& files is Some ==> (files->0.checkpoint is Some <==> role == "checkpoint"@)
                && (files->0.diffusion_model is Some <==> role == "diffusionModel"@)
                && (files->0.clip_l is Some <==> role == "clipL"@) && (files->0.clip_g is Some
                <==> role == "clipG"@) && (files->0.t5xxl is Some <==> role == "t5xxl"@) && (
            files->0.vae is Some <==> role == "vae"@)
        }),
{
    reveal_strlit("checkpoint");
    reveal_strlit("diffusionModel");
    reveal_strlit("clipL");
    reveal_strlit("clipG");
    reveal_strlit("t5xxl");
    reveal_strlit("vae");
    assert("clipL"@[4] != "clipG"@[4]);
    assert("clipL"@[0] != "t5xxl"@[0]);
    assert("clipG"@[0] != "t5xxl"@[0]);
    assert("checkpoint"@.len() == 10 && "diffusionModel"@.len() == 14 && "vae"@.len() == 3);
    assert("clipL"@.len() == 5 && "clipG"@.len() == 5 && "t5xxl"@.len() == 5);
}

/// A file can belong to a model exactly where its family is known, it is there and it
/// plays one of the parts; else the first of these that is wanting is told.
pub proof fn a_registration_is_refused_for_what_is_wanting(
    known: bool,
    family_text: Seq<char>,
    file_path: String,
    is_file: bool,
    role: Seq<char>,
)
    ensures
        ({
            let refusal = registration_refusal(known, family_text, file_path, is_file, role);
            let plays = role == "checkpoint"@ || role == "diffusionModel"@ || role == "clipL"@
                || role == "clipG"@ || role == "t5xxl"@ || role == "vae"@;
            &&& refusal is None <==> known && is_file && plays
            &&& !known ==> refusal == Some("Unknown family: "@ + family_text)
            &&& known && !is_file ==> refusal == Some("File not found: "@ + file_path@)
            &&& known && is_file && !plays ==> refusal == Some("Unknown file role: "@ + role)
        }),
{
    each_role_has_its_place(role, file_path);
}

/// A file goes to the model that its repository has already, where that is of the same
/// family, and never to one of another; else it becomes a model of its own. Its files
/// are not changed.
pub proof fn a_file_joins_its_own_family(
    registration: HfRegistration,
    existing: Option<SdModelEntry>,
)
    ensures
        match decided(registration, existing) {
            HfStep::Update { id, files } => existing is Some && id == existing->0.id && files
                == registration.files && existing->0.family.name@ == registration.family.name@,
            HfStep::Create(created) => created == registration && (existing is Some
                ==> existing->0.family.name@ != registration.family.name@),
        },
{
}

/// A model is shown by the name given for it, as it is, where something in that can be
/// seen; else by the last part of the repository's name.
pub proof fn a_model_is_shown_by_its_name(
    display_name: Option<String>,
    owner: Seq<char>,
    last: Seq<char>,
)
    requires
        !last.contains('/'),
    ensures
        ({
            let shown = display_name is Some && shows_something(display_name->0@);
            let repo = owner + seq!['/'] + last;
            &&& shown ==> name_for(display_name, repo) == display_name->0@ && name_for(
                display_name,
                last,
            ) == display_name->0@
            &&& !shown ==> name_for(display_name, repo) == last && name_for(display_name, last)
                == last
        }),
{
    if display_name is Some {
        crate::text::blank_shows_nothing(display_name->0@);
    }
    crate::text::last_part_has_no_mark(owner, '/', last);
}

/// An identifier begins with the prefix of the family and a hyphen, the drawn value
/// follows, and different values give different identifiers.
pub proof fn identifiers_tell_models_apart(family: SdFamily, a: Seq<char>, b: Seq<char>)
    ensures
        id_of(family, a).len() == family.prefix@.len() + 1 + a.len(),
        id_of(family, a).take(family.prefix@.len() as int) == family.prefix@,
        id_of(family, a)[family.prefix@.len() as int] == '-',
        id_of(family, a).skip(family.prefix@.len() as int + 1) == a,
        id_of(family, a) == id_of(family, b) ==> a == b,
{
    reveal_strlit("-");
    let n = family.prefix@.len() as int;
    assert(id_of(family, a).take(n) =~= family.prefix@);
    assert(id_of(family, a).skip(n + 1) =~= a);
    assert(id_of(family, b).skip(n + 1) =~= b);
}

/// Two models made of the same differ in nothing but their identifiers, and each holds
/// what it was made of.
pub proof fn a_model_is_what_it_was_made_of(
    a: SdModelEntry,
    b: SdModelEntry,
    family: SdFamily,
    name: Seq<char>,
    files: SdModelFiles,
    total_bytes: u64,
    source: Seq<char>,
    repo: Option<String>,
    created_at: u64,
)
    requires
        is_entry_of(a, family, name, files, total_bytes, source, repo, created_at),
        is_entry_of(b, family, name, files, total_bytes, source, repo, created_at),
    ensures
        a.family == b.family && a.name@ == b.name@ && a.files == b.files && a.source@ == b.source@,
        a.family == family && a.files == files && a.name@ == name && a.source@ == source,
        a.total_bytes == total_bytes && a.created_at == created_at && a.repo == repo,
        a.id@.len() == family.prefix@.len() + 37,
        a.id@.take(family.prefix@.len() as int) == family.prefix@,
{
    let uuid = choose|uuid: Seq<char>| #[trigger]
        is_random_uuid(uuid) && a.id@ == id_of(family, uuid);
    identifiers_tell_models_apart(family, uuid, uuid);
}

/// Files are deleted with a model only where that was asked for and there was one; and then
/// only files of that model that are there and lead into the directory of models, where
/// its path starts at a root. A file that is there and named under the directory is.
pub proof fn files_go_only_when_asked_for(
    selected: Seq<Seq<char>>,
    removed: Option<Seq<KeptFile>>,
    delete_files: bool,
    root: Seq<char>,
    path: Seq<char>,
)
    requires
        may_be_deleted(selected, removed, delete_files, root),
        is_rooted(root),
    ensures
        !delete_files || removed is None ==> selected.len() == 0,
        selected.contains(path) ==> delete_files && removed is Some && leads_into(path, root)
            && exists|i: int|
            0 <= i < removed->0.len() && (#[trigger] removed->0[i]).path@ == path
                && removed->0[i].is_file,
        delete_files && removed is Some && root.len() > 1 && !is_share(root) && is_named_under(
            path,
            root,
        ) && (exists|i: int|
            0 <= i < removed->0.len() && (#[trigger] removed->0[i]).path@ == path
                && removed->0[i].is_file) ==> selected.contains(path),
{
    if delete_files && removed is Some {
        let files = removed->0;
        let inside = choose|inside: Seq<bool>|
            are_verdicts(inside, kept_paths(files), root) && selected == #[trigger] deleted(
                files,
                inside,
            );
        if selected.contains(path) {
            nothing_outside_is_deleted(files, inside, root, path);
            let i = choose|i: int|
                0 <= i < files.len() && #[trigger] files[i].path@ == path && files[i].is_file;
            assert(removed->0[i].path@ == path);
        }
        if root.len() > 1 && !is_share(root) && is_named_under(path, root) && (exists|i: int|
            0 <= i < files.len() && (#[trigger] files[i]).path@ == path && files[i].is_file) {
            let i = choose|i: int|
                0 <= i < files.len() && (#[trigger] files[i]).path@ == path && files[i].is_file;
            what_is_named_under_the_root_is_deleted(files, inside, root, i);
        }
    }
}

} // verus!
