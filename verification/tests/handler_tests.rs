use gruct_server::config::{compare_passwd, GIT_KEYS_DIR, REPOS_DIR};
use gruct_server::handlers::{
    add_key, create_dir_outcome, create_dir_request, key_listing, pull_key_lookup,
    pull_key_request, pull_repo_lookup, pull_repo_request, repo_listing, repo_tree_response,
    update_file_outcome, update_file_payload, update_file_request, validated_path,
};
use gruct_server::models::GitKey;
use gruct_server::response::Reply;
use gruct_server::storage::{git_keys_file, repo_dir, repo_file_path};

fn key(token: &str, project: Option<&str>) -> GitKey {
    GitKey { token: token.to_string(), project: project.map(|p| p.to_string()) }
}

fn params(v: &[(&str, &str)]) -> Vec<(String, String)> {
    v.iter().map(|(a, b)| (a.to_string(), b.to_string())).collect()
}

#[test]
fn paths() {
    assert_eq!(REPOS_DIR, "/var/lib/gruct-repos");
    assert_eq!(GIT_KEYS_DIR, "/var/lib/gruct/git-keys");
    assert_eq!(git_keys_file(), "/var/lib/gruct/git-keys/git_keys.json");
    assert_eq!(repo_dir("r"), "/var/lib/gruct-repos/r");
    assert_eq!(repo_file_path("r", "f.txt"), "/var/lib/gruct-repos/r/f.txt");
}

#[test]
fn password_check() {
    assert!(compare_passwd("s3cret", "s3cret").is_ok());
    let e = compare_passwd("", "s3cret").unwrap_err();
    assert_eq!(e.status_code, 401);
    assert_eq!(e.message, "Authentication failed");
}

#[test]
fn adding_keys() {
    let mut keys = vec![key("t1", Some("p1")), key("t2", None)];
    assert!(add_key(&mut keys, "p3", "t3").is_none());
    assert_eq!(keys.len(), 3);
    assert_eq!(keys[2].token, "t3");
    assert_eq!(keys[2].project.as_deref(), Some("p3"));
    let e = add_key(&mut keys, "p3", "t9").unwrap();
    assert_eq!((e.status_code, e.message.as_str()), (400, "Key already exists"));
    let e = add_key(&mut keys, "p9", "t2").unwrap();
    assert_eq!(e.message, "Key already exists");
    assert_eq!(keys.len(), 3);
}

#[test]
fn added_key_is_found_by_project() {
    let mut keys = vec![key("t1", Some("p1"))];
    assert!(add_key(&mut keys, "proj", "tok").is_none());
    let r = pull_key_lookup(&keys, "proj");
    assert_eq!((r.status_code, r.reply, r.message.as_str()), (200, Reply::KeyToken, "tok"));
}

#[test]
fn key_lookup() {
    let keys = vec![key("t1", Some("p")), key("t2", Some("p")), key("t3", None)];
    let r = pull_key_lookup(&keys, "p");
    assert_eq!(r.message, "t1");
    let r = pull_key_lookup(&keys, "q");
    assert_eq!((r.status_code, r.reply), (404, Reply::Plain));
    assert_eq!(r.message, "Couldnt find git key with that name");
    let r = pull_key_request("").unwrap();
    assert_eq!((r.status_code, r.message.as_str()), (404, "Couldnt get the key name"));
    assert!(pull_key_request("p").is_none());
}

#[test]
fn key_list() {
    let keys = vec![key("t1", Some("p1")), key("t2", None), key("t3", Some("p3"))];
    let r = key_listing(&keys);
    assert_eq!((r.status_code, r.reply, r.message.as_str()), (200, Reply::KeyList, "p1\n\np3\n"));
    let r = key_listing(&Vec::new());
    assert_eq!(r.message, "");
}

#[test]
fn repo_list() {
    let r = repo_listing(&vec![String::from("a"), String::from("b")]);
    assert_eq!((r.status_code, r.reply, r.message.as_str()), (200, Reply::Plain, "a\nb\n"));
}

#[test]
fn pulling_repos() {
    let r = pull_repo_request("").unwrap();
    assert_eq!((r.status_code, r.message.as_str()), (404, "Couldnt get the repo name"));
    assert!(pull_repo_request("r").is_none());
    let r = pull_repo_lookup(false).unwrap();
    assert_eq!(r.message, "Dir/Repo with that name doesnt exist");
    assert!(pull_repo_lookup(true).is_none());
    let r = repo_tree_response(String::from("{\"File\":{}}"));
    assert_eq!((r.status_code, r.reply), (200, Reply::RepoTree));
}

#[test]
fn update_requests() {
    let e = update_file_request("", &params(&[("where", "r")])).unwrap_err();
    assert_eq!(e.message, "Couldnt get a file name (might be a server error)");
    let e = update_file_request("f", &params(&[])).unwrap_err();
    assert_eq!(e.message, "Couldnt get the repo/dir name to which to push to");
    let e = update_file_request("f", &params(&[("name", "r"), ("where", "s")])).unwrap_err();
    assert_eq!(e.status_code, 404);
    assert_eq!(update_file_request("f", &params(&[("where", "r")])).unwrap(), "r");
}

#[test]
fn update_payloads() {
    let e = update_file_payload(false, "aGVsbG8=").unwrap_err();
    assert_eq!(e.message, "Dir/Repo with that name doesnt exist, create it before pushing");
    assert_eq!(update_file_payload(true, " aGVsbG8=\r\n").unwrap(), b"hello".to_vec());
    assert_eq!(update_file_payload(true, "").unwrap(), Vec::<u8>::new());
    let e = update_file_payload(true, "@@@").unwrap_err();
    assert_eq!((e.status_code, e.message.as_str()), (500, "Failed to write to file"));
}

#[test]
fn update_outcomes() {
    let r = update_file_outcome(true, true);
    assert_eq!((r.status_code, r.message.as_str()), (200, "Sucessfully updated existing file"));
    let r = update_file_outcome(false, true);
    assert_eq!((r.status_code, r.message.as_str()), (201, "Sucessfully created new file and wrote to it"));
    let r = update_file_outcome(false, false);
    assert_eq!((r.status_code, r.message.as_str()), (500, "Failed to write to file"));
}

#[test]
fn create_requests() {
    let e = create_dir_request(&params(&[])).unwrap_err();
    assert_eq!(e.message, "Couldnt get the name the new dir/repo");
    let e = create_dir_request(&params(&[("where", "x")])).unwrap_err();
    assert_eq!(e.message, "Couldnt get the name the new dir/repo");
    let e = create_dir_request(&params(&[("name", "")])).unwrap_err();
    assert_eq!((e.status_code, e.message.as_str()), (404, "No dir/repo name given"));
    assert_eq!(create_dir_request(&params(&[("name", "repo"), ("x", "y")])).unwrap(), "repo");
}

#[test]
fn create_outcomes() {
    let r = create_dir_outcome(true, true);
    assert_eq!((r.status_code, r.message.as_str()), (404, "Dir/Repo with the same name already exists"));
    let r = create_dir_outcome(false, true);
    assert_eq!((r.status_code, r.message.as_str()), (201, "Succesfully created new dir/repo"));
    let r = create_dir_outcome(false, false);
    assert_eq!((r.status_code, r.message.as_str()), (500, "Internal Server Error"));
}

#[test]
fn path_validation_result() {
    let e = validated_path(None).unwrap_err();
    assert_eq!((e.status_code, e.message.as_str()), (403, "Path blocked because path traversal was detected"));
    assert_eq!(validated_path(Some(String::from("/x"))).unwrap(), "/x");
}

#[test]
fn stored_keys_stay_distinct() {
    let mut keys = Vec::new();
    assert!(add_key(&mut keys, "p1", "t1").is_none());
    assert!(add_key(&mut keys, "p2", "t2").is_none());
    assert!(add_key(&mut keys, "p1", "t3").is_some());
    assert!(add_key(&mut keys, "p3", "t1").is_some());
    assert_eq!(keys.len(), 2);
    assert_ne!(keys[0].token, keys[1].token);
    assert_ne!(keys[0].project, keys[1].project);
}
