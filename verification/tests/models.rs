use sdcpp::models::{
    assign_role, files_to_delete, model_id, model_name, new_model_id, sd_delete_model, sd_import_model,
    sd_register_hf_model, HfRegistration, HfStep, KeptFile, SdFamily,
    SdModelFiles,
};

fn family() -> SdFamily {
    SdFamily { name: "flux".to_string(), prefix: "fx".to_string() }
}

fn files() -> SdModelFiles {
    let mut files = SdModelFiles::default();
    files.vae = Some("v".to_string());
    files
}

fn strings(all: &[&str]) -> Vec<String> {
    all.iter().map(|s| s.to_string()).collect()
}

fn kept(paths: &[String]) -> Option<Vec<KeptFile>> {
    Some(paths.iter().map(|p| KeptFile { path: p.clone(), is_file: true }).collect())
}

#[test]
fn identifiers_hold_a_random_uuid() {
    assert_eq!(model_id(&family(), "u"), "fx-u");
    let id = new_model_id(&family());
    assert_eq!(id.len(), 3 + 36);
    assert!(id.starts_with("fx-"));
    let parsed = uuid::Uuid::parse_str(&id[3..]).unwrap();
    assert_eq!(parsed.get_version_num(), 4);
    assert_eq!(parsed.to_string(), id[3..]);
    assert_ne!(new_model_id(&family()), id);
}

#[test]
fn import_is_checked_in_order() {
    let none = strings(&[]);
    let paths = strings(&["v"]);
    assert_eq!(
        sd_import_model(None, "nope", "", files(), &none),
        Err("Unknown family: nope".to_string())
    );
    assert_eq!(
        sd_import_model(Some(family()), "flux", " \n", files(), &none),
        Err("Model name is required".to_string())
    );
    assert_eq!(
        sd_import_model(Some(family()), "flux", "m", files(), &none),
        Err("At least one model file is required".to_string())
    );
    let plan = sd_import_model(Some(family()), "flux", "  My model ", files(), &paths).unwrap();
    assert_eq!(plan.name, "My model");
    assert_eq!(plan.clone().into_entry(1, Err("no clock".to_string())), Err("no clock".to_string()));
    let entry = plan.into_entry(77, Ok(5)).unwrap();
    assert!(entry.id.starts_with("fx-"));
    assert_eq!(entry.name, "My model");
    assert_eq!(entry.family, family());
    assert_eq!(entry.total_bytes, 77);
    assert_eq!(entry.files, files());
    assert_eq!(entry.source, "imported");
    assert_eq!(entry.repo, None);
    assert_eq!(entry.created_at, 5);
}

#[test]
fn each_role_has_its_place() {
    let p = || "p".to_string();
    let some = Some(p());
    assert_eq!(assign_role("checkpoint", p()).unwrap().checkpoint, some);
    assert_eq!(assign_role("diffusionModel", p()).unwrap().diffusion_model, some);
    assert_eq!(assign_role("clipL", p()).unwrap().clip_l, some);
    assert_eq!(assign_role("clipG", p()).unwrap().clip_g, some);
    assert_eq!(assign_role("t5xxl", p()).unwrap().t5xxl, some);
    let mut vae = SdModelFiles::default();
    vae.vae = some;
    assert_eq!(assign_role("vae", p()), Ok(vae));
    assert_eq!(assign_role("VAE", p()), Err("Unknown file role: VAE".to_string()));
}

#[test]
fn registration_is_checked_in_order() {
    let path = || "/m/x".to_string();
    assert_eq!(
        sd_register_hf_model(None, "zz", path(), false, "?"),
        Err("Unknown family: zz".to_string())
    );
    assert_eq!(
        sd_register_hf_model(Some(family()), "flux", path(), false, "?"),
        Err("File not found: /m/x".to_string())
    );
    assert_eq!(
        sd_register_hf_model(Some(family()), "flux", path(), true, "?"),
        Err("Unknown file role: ?".to_string())
    );
    let registration = sd_register_hf_model(Some(family()), "flux", path(), true, "clipL").unwrap();
    assert_eq!(registration.family, family());
    assert_eq!(registration.files.clip_l, Some(path()));
}

#[test]
fn model_of_the_same_family_is_updated() {
    let registration = HfRegistration { family: family(), files: files() };
    let entry = registration
        .clone()
        .into_entry(Some("  ".to_string()), "org/repo".to_string(), 3, Ok(4))
        .unwrap();
    assert_eq!(entry.name, "repo");
    assert_eq!(entry.source, "hf");
    assert_eq!(entry.repo, Some("org/repo".to_string()));
    assert_eq!(entry.total_bytes, 3);
    assert_eq!(entry.created_at, 4);
    assert_eq!(
        registration.clone().decide(Some(&entry)),
        HfStep::Update { id: entry.id.clone(), files: files() }
    );
    assert_eq!(registration.clone().decide(None), HfStep::Create(registration.clone()));
    let mut other = entry.clone();
    other.family.name = "sdxl".to_string();
    assert_eq!(registration.clone().decide(Some(&other)), HfStep::Create(registration.clone()));
    assert_eq!(
        registration.into_entry(None, "r".to_string(), 0, Err("no clock".to_string())),
        Err("no clock".to_string())
    );
}

#[test]
fn shown_name_is_kept_as_it_is() {
    assert_eq!(model_name(Some(" Nice ".to_string()), "a/b"), " Nice ");
    assert_eq!(model_name(None, "a/b/c"), "c");
    assert_eq!(model_name(None, "plain"), "plain");
    assert_eq!(model_name(Some("".to_string()), "a/"), "");
}

#[test]
fn only_files_inside_are_deleted() {
    let paths = strings(&["/models/a", "/modelsx/b", "/models/c/d", "/other", "/models"]);
    let (removed, files) = sd_delete_model(kept(&paths), true, "/models");
    assert!(removed);
    assert_eq!(files, strings(&["/models/a", "/models/c/d", "/models"]));
    assert_eq!(sd_delete_model(kept(&paths), false, "/models"), (true, vec![]));
    assert_eq!(sd_delete_model(None, true, "/models"), (false, vec![]));
}

#[test]
fn files_that_are_there_and_inside_are_deleted() {
    let mut files = kept(&strings(&["a", "b", "c", "d"])).unwrap();
    files[2].is_file = false;
    let inside = vec![true, false, true, true];
    assert_eq!(files_to_delete(&files, &inside), strings(&["a", "d"]));
    assert!(files_to_delete(&vec![], &vec![]).is_empty());
}

#[test]
fn what_follows_the_root_and_a_slash_is_deleted() {
    let root = "C:\\models";
    let paths = strings(&["C:\\models/a\\b", "C:\\models/"]);
    assert_eq!(sd_delete_model(kept(&paths), true, root), (true, paths));
}

#[test]
fn parts_of_paths_decide_what_is_inside() {
    let paths = strings(&[
        "/m/x//a", "/m/./x/a", "/m/x/.", "/m/x/", "/m/x.txt", "/m/xa", "/m", "/", "/m/../m/x", "/m/x/../y", "/x/m",
    ]);
    let (_, deleted) = sd_delete_model(kept(&paths), true, "/m/x/");
    assert_eq!(deleted, strings(&["/m/x//a", "/m/./x/a", "/m/x/.", "/m/x/", "/m/x/../y"]));
    let (_, deleted) = sd_delete_model(kept(&paths), true, "/");
    assert_eq!(deleted, paths);
}

#[test]
fn what_is_named_under_a_directory_is_inside() {
    for root in ["/", "/models", "/models/", "/a/./b"] {
        for rest in ["", "x", "/x", ".", "..", "x/y/"] {
            let paths = vec![format!("{}/{}", root, rest)];
            assert_eq!(sd_delete_model(kept(&paths), true, root), (true, paths));
        }
    }
}

#[test]
fn what_is_no_file_is_left() {
    let mut files = kept(&strings(&["/m/a", "/m/b"])).unwrap();
    files[0].is_file = false;
    assert_eq!(sd_delete_model(Some(files), true, "/m"), (true, strings(&["/m/b"])));
}

#[test]
fn what_lies_beside_or_elsewhere_is_kept() {
    let paths = strings(&[
        "C:\\models-old\\a", "D:\\models\\a", "\\\\share\\models\\a", "models\\a", "/models/a", "C:\\",
    ]);
    assert_eq!(sd_delete_model(kept(&paths), true, "C:\\models"), (true, vec![]));
    assert_eq!(sd_delete_model(kept(&paths), true, "\\\\share\\other"), (true, vec![]));
    let root = strings(&["C:\\models", "C:\\models-old"]);
    assert_eq!(sd_delete_model(kept(&root), true, "C:\\models"), (true, strings(&["C:\\models"])));
}

#[test]
fn a_slash_leads_into_a_drive_on_every_system() {
    let paths = strings(&["C:/models/a", "C:/models//./b", "C:/modelsx", "C:/model"]);
    let (_, deleted) = sd_delete_model(kept(&paths), true, "C:/models");
    assert_eq!(deleted, strings(&["C:/models/a", "C:/models//./b"]));
}
