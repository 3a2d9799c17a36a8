//! What the server answers to each kind of request, given what it found on
//! disk. The disk itself is read and written by the caller, between the steps
//! that these functions decide.
use vstd::prelude::*;
use vstd::string::*;

use crate::models::{keys_view, GitKey};
use crate::outside::{base64_standard_decode, decode_base64};
use crate::request::pairs_view;
use crate::response::{plain, Reply, Response};
use crate::text::{same_text, trim, trimmed, chars_of, string_of};

verus! {

/// A key view: token and project.
pub type KeyView = (Seq<char>, Option<Seq<char>>);

// ---------------------------------------------------------------------------
// Git keys
// ---------------------------------------------------------------------------

/// Whether a stored key stands in the way of storing `key` for `token`: it
/// belongs to the project `key`, or it has the token `token`.
pub open spec fn key_conflicts(k: KeyView, key: Seq<char>, token: Seq<char>) -> bool {
    k.1 == Some(key) || k.0 == token
}

/// Whether any stored key stands in the way of storing `key` for `token`.
pub open spec fn key_taken(keys: Seq<KeyView>, key: Seq<char>, token: Seq<char>) -> bool {
    exists|i: int| 0 <= i < keys.len() && key_conflicts(#[trigger] keys[i], key, token)
}

/// The position of the first key of the project `project`.
pub open spec fn project_index(keys: Seq<KeyView>, project: Seq<char>) -> Option<int>
    decreases keys.len(),
{
    if keys.len() == 0 {
        None
    } else {
        match project_index(keys.drop_last(), project) {
            Some(i) => Some(i),
            None => if keys.last().1 == Some(project) {
                Some(keys.len() - 1)
            } else {
                None
            },
        }
    }
}

/// The projects of the keys, one per line; a key without a project gives an
/// empty line.
pub open spec fn projects_text(keys: Seq<KeyView>) -> Seq<char>
    decreases keys.len(),
{
    if keys.len() == 0 {
        Seq::empty()
    } else {
        projects_text(keys.drop_last()) + match keys.last().1 {
            Some(p) => p,
            None => Seq::<char>::empty(),
        } + seq!['\n']
    }
}

/// No two keys share a token, and no two share a project.
pub open spec fn keys_distinct(keys: Seq<KeyView>) -> bool {
    forall|i: int, j: int|
        0 <= i < j < keys.len() ==> {
            &&& (#[trigger] keys[i]).0 != (#[trigger] keys[j]).0
            &&& keys[j].1 is Some ==> keys[i].1 != keys[j].1
        }
}

/// Storing a key that no stored key stands in the way of keeps tokens and
/// projects distinct.
pub proof fn lemma_add_keeps_keys_distinct(keys: Seq<KeyView>, key: Seq<char>, token: Seq<char>)
    requires
        keys_distinct(keys),
        !key_taken(keys, key, token),
    ensures
        keys_distinct(keys.push((token, Some(key)))),
{
    let ks = keys.push((token, Some(key)));
    assert forall|i: int, j: int| 0 <= i < j < ks.len() implies {
        &&& (#[trigger] ks[i]).0 != (#[trigger] ks[j]).0
        &&& ks[j].1 is Some ==> ks[i].1 != ks[j].1
    } by {
        if j == keys.len() {
            assert(!key_conflicts(keys[i], key, token));
        } else {
            assert(ks[i] == keys[i] && ks[j] == keys[j]);
        }
    }
}

pub proof fn lemma_project_index(keys: Seq<KeyView>, project: Seq<char>)
    ensures
        project_index(keys, project) matches Some(i) ==> 0 <= i < keys.len() && keys[i].1 == Some(
            project,
        ),
        project_index(keys, project) is None ==> forall|j: int|
            0 <= j < keys.len() ==> (#[trigger] keys[j]).1 != Some(project),
    decreases keys.len(),
{
    if keys.len() > 0 {
        lemma_project_index(keys.drop_last(), project);
        assert forall|j: int| 0 <= j < keys.len() - 1 implies #[trigger] keys[j] == keys.drop_last()[j] by {
        }
    }
}

/// Whether the stored key `k` stands in the way of storing `key` for `token`.
fn conflicts(k: &GitKey, key: &str, token: &str) -> (r: bool)
    ensures
        r == key_conflicts(k@, key@, token@),
{
    let same_project = match &k.project {
        Some(p) => same_text(p.as_str(), key),
        None => false,
    };
    same_project || same_text(k.token.as_str(), token)
}

/// Stores the key `key` for the token `key_name`, unless a stored key already
/// belongs to that project or has that token; that is answered with 400
/// "Key already exists" and the keys stay as they were. A stored key gets no
/// answer.
pub fn add_key(keys: &mut Vec<GitKey>, key: &str, key_name: &str) -> (r: Option<Response>)
    ensures
        key_taken(keys_view(old(keys)@), key@, key_name@) ==> {
            &&& r matches Some(e) && e@ == plain(400, "Key already exists"@)
            &&& final(keys)@ == old(keys)@
        },
        !key_taken(keys_view(old(keys)@), key@, key_name@) ==> {
            &&& r is None
            &&& keys_view(final(keys)@) == keys_view(old(keys)@).push((key_name@, Some(key@)))
        },
        keys_distinct(keys_view(old(keys)@)) ==> keys_distinct(keys_view(final(keys)@)),
{
    let mut i: usize = 0;
    while i < keys.len()
        invariant
            i <= keys@.len(),
            forall|j: int|
                0 <= j < i ==> !key_conflicts(#[trigger] keys_view(keys@)[j], key@, key_name@),
        decreases keys@.len() - i,
    {
        if conflicts(&keys[i], key, key_name) {
            assert(key_conflicts(keys_view(keys@)[i as int], key@, key_name@));
            return Some(Response::plain(400, "Key already exists"));
        }
        i = i + 1;
    }
    let ghost before = keys_view(keys@);
    keys.push(GitKey { token: String::from_str(key_name), project: Some(String::from_str(key)) });
    assert(keys_view(keys@) =~= before.push((key_name@, Some(key@))));
    proof {
        if keys_distinct(before) {
            lemma_add_keeps_keys_distinct(before, key@, key_name@);
        }
    }
    None
}

/// The token of the first key of the project `key_name`, as a JSON string
/// with status 200; 404 "Couldnt find git key with that name" when no key
/// belongs to it.
pub fn pull_key_lookup(keys: &Vec<GitKey>, key_name: &str) -> (r: Response)
    ensures
        match project_index(keys_view(keys@), key_name@) {
            Some(i) => r@ == (200i32, Reply::KeyToken, keys_view(keys@)[i].0),
            None => r@ == plain(404, "Couldnt find git key with that name"@),
        },
{
    let ghost kv = keys_view(keys@);
    let mut i: usize = 0;
    assert(kv.take(0) =~= Seq::<KeyView>::empty());
    while i < keys.len()
        invariant
            i <= keys@.len(),
            kv == keys_view(keys@),
            project_index(kv.take(i as int), key_name@) is None,
        decreases keys@.len() - i,
    {
        let ghost t = kv.take(i + 1);
        assert(t.drop_last() =~= kv.take(i as int));
        let found = match &keys[i].project {
            Some(p) => same_text(p.as_str(), key_name),
            None => false,
        };
        if found {
            proof {
                assert(project_index(t, key_name@) == Some(i as int));
                lemma_project_index_prefix(kv, key_name@, i + 1);
            }
            return Response::new(200, Reply::KeyToken, keys[i].token.clone());
        }
        i = i + 1;
    }
    assert(kv.take(i as int) =~= kv);
    Response::plain(404, "Couldnt find git key with that name")
}

/// A match found in a prefix is the first match of the whole list.
pub proof fn lemma_project_index_prefix(keys: Seq<KeyView>, project: Seq<char>, n: int)
    requires
        0 <= n <= keys.len(),
        project_index(keys.take(n), project) is Some,
    ensures
        project_index(keys, project) == project_index(keys.take(n), project),
    decreases keys.len() - n,
{
    if n < keys.len() {
        assert(keys.take(n + 1).drop_last() =~= keys.take(n));
        lemma_project_index_prefix(keys, project, n + 1);
    } else {
        assert(keys.take(n) =~= keys);
    }
}

/// The projects of all keys, one per line, as a plain-text list with status 200.
pub fn key_listing(keys: &Vec<GitKey>) -> (r: Response)
    ensures
        r@ == (200i32, Reply::KeyList, projects_text(keys_view(keys@))),
{
    let ghost kv = keys_view(keys@);
    let mut message = String::new();
    let mut i: usize = 0;
    assert(kv.take(0) =~= Seq::<KeyView>::empty());
    while i < keys.len()
        invariant
            i <= keys@.len(),
            kv == keys_view(keys@),
            message@ == projects_text(kv.take(i as int)),
        decreases keys@.len() - i,
    {
        assert(kv.take(i + 1).drop_last() =~= kv.take(i as int));
        match &keys[i].project {
            Some(p) => message.append(p.as_str()),
            None => {},
        }
        message.push('\n');
        i = i + 1;
    }
    assert(kv.take(i as int) =~= kv);
    Response::new(200, Reply::KeyList, message)
}

/// Checks the key name of a key request: an empty one is answered with 404
/// "Couldnt get the key name".
pub fn pull_key_request(key_name: &str) -> (r: Option<Response>)
    ensures
        r is Some <==> key_name@.len() == 0,
        r matches Some(e) ==> e@ == plain(404, "Couldnt get the key name"@),
{
    if key_name.is_empty() {
        Some(Response::plain(404, "Couldnt get the key name"))
    } else {
        None
    }
}

/// Storing a key for a project and token that no stored key uses makes a
/// later lookup of that project answer that token.
pub proof fn lemma_added_key_is_found(keys: Seq<KeyView>, key: Seq<char>, token: Seq<char>)
    requires
        !key_taken(keys, key, token),
    ensures
        project_index(keys.push((token, Some(key))), key) == Some(keys.len() as int),
        keys.push((token, Some(key)))[keys.len() as int].0 == token,
        key_taken(keys.push((token, Some(key))), key, token),
{
    let ks = keys.push((token, Some(key)));
    assert(ks.drop_last() =~= keys);
    lemma_project_index(keys, key);
    if let Some(i) = project_index(keys, key) {
        assert(key_conflicts(keys[i], key, token));
    }
    assert(key_conflicts(ks[keys.len() as int], key, token));
}

/// A stored key stands in the way of a new one exactly when its project is the
/// new project or its token is the new token; a stored project that merely
/// begins or ends like the new one does not.
pub proof fn lemma_key_taken_exactly(keys: Seq<KeyView>, key: Seq<char>, token: Seq<char>)
    ensures
        key_taken(keys, key, token) <==> exists|i: int|
            0 <= i < keys.len() && ((#[trigger] keys[i]).1 == Some(key) || keys[i].0 == token),
{
}

/// The listing of no keys is empty.
pub proof fn lemma_projects_text_empty()
    ensures
        projects_text(Seq::<KeyView>::empty()).len() == 0,
{
}

/// Listing one more key appends its project, character for character, and a
/// line break; a key without a project adds only the line break.
pub proof fn lemma_projects_text_append(keys: Seq<KeyView>, token: Seq<char>, project: Seq<char>)
    ensures
        projects_text(keys.push((token, Some(project)))) == projects_text(keys) + project + seq![
            '\n',
        ],
        projects_text(keys.push((token, None))) == projects_text(keys) + seq!['\n'],
        projects_text(seq![(token, Some(project))]) == project.push('\n'),
{
    assert(keys.push((token, Some(project))).drop_last() =~= keys);
    assert(keys.push((token, None::<Seq<char>>)).drop_last() =~= keys);
    let one = seq![(token, Some(project))];
    assert(one.drop_last() =~= Seq::<KeyView>::empty());
    assert(projects_text(Seq::<KeyView>::empty()) =~= Seq::<char>::empty());
    assert(one.last() == (token, Some(project)));
    assert(projects_text(one) == projects_text(Seq::<KeyView>::empty()) + project + seq!['\n']);
    assert(projects_text(one) =~= project.push('\n'));
    assert(projects_text(keys.push((token, None::<Seq<char>>))) =~= projects_text(keys) + seq![
        '\n',
    ]);
}

// ---------------------------------------------------------------------------
// Repositories
// ---------------------------------------------------------------------------

/// The views of a list of strings.
pub open spec fn strings_view(v: Seq<String>) -> Seq<Seq<char>> {
    v.map_values(|s: String| s@)
}

/// The names, one per line.
pub open spec fn lines_text(names: Seq<Seq<char>>) -> Seq<char>
    decreases names.len(),
{
    if names.len() == 0 {
        Seq::empty()
    } else {
        lines_text(names.drop_last()) + names.last() + seq!['\n']
    }
}

/// The names of the repositories, one per line, with status 200.
pub fn repo_listing(names: &Vec<String>) -> (r: Response)
    ensures
        r@ == plain(200, lines_text(strings_view(names@))),
{
    let ghost nv = strings_view(names@);
    let mut message = String::new();
    let mut i: usize = 0;
    assert(nv.take(0) =~= Seq::<Seq<char>>::empty());
    while i < names.len()
        invariant
            i <= names@.len(),
            nv == strings_view(names@),
            message@ == lines_text(nv.take(i as int)),
        decreases names@.len() - i,
    {
        assert(nv.take(i + 1).drop_last() =~= nv.take(i as int));
        message.append(names[i].as_str());
        message.push('\n');
        i = i + 1;
    }
    assert(nv.take(i as int) =~= nv);
    Response::new(200, Reply::Plain, message)
}

/// Checks the name of a pulled repository: an empty one is answered with 404
/// "Couldnt get the repo name".
pub fn pull_repo_request(repo_name: &str) -> (r: Option<Response>)
    ensures
        r is Some <==> repo_name@.len() == 0,
        r matches Some(e) ==> e@ == plain(404, "Couldnt get the repo name"@),
{
    if repo_name.is_empty() {
        Some(Response::plain(404, "Couldnt get the repo name"))
    } else {
        None
    }
}

/// After looking for the pulled repository: a missing one is answered with
/// 404 "Dir/Repo with that name doesnt exist"; an existing one is sent.
pub fn pull_repo_lookup(repo_exists: bool) -> (r: Option<Response>)
    ensures
        r is Some <==> !repo_exists,
        r matches Some(e) ==> e@ == plain(404, "Dir/Repo with that name doesnt exist"@),
{
    if !repo_exists {
        Some(Response::plain(404, "Dir/Repo with that name doesnt exist"))
    } else {
        None
    }
}

/// A repository tree, serialised as JSON, with status 200.
pub fn repo_tree_response(repo_json: String) -> (r: Response)
    ensures
        r@ == (200i32, Reply::RepoTree, repo_json@),
{
    Response::new(200, Reply::RepoTree, repo_json)
}

// ---------------------------------------------------------------------------
// Writing files
// ---------------------------------------------------------------------------

/// The repository named by the parameters of an update: the value of the
/// first parameter when its key is `where`.
pub open spec fn update_target(params: Seq<(Seq<char>, Seq<char>)>) -> Option<Seq<char>> {
    if params.len() > 0 && params[0].0 == "where"@ {
        Some(params[0].1)
    } else {
        None
    }
}

/// Checks an update request: a missing file name is answered with 404
/// "Couldnt get a file name (might be a server error)"; parameters that do
/// not start with `where` with 404 "Couldnt get the repo/dir name to which to
/// push to". Otherwise yields the repository named by `where`.
pub fn update_file_request(file_name: &str, params: &Vec<(String, String)>) -> (r: Result<
    String,
    Response,
>)
    ensures
        file_name@.len() == 0 ==> (r matches Err(e) && e@ == plain(
            404,
            "Couldnt get a file name (might be a server error)"@,
        )),
        file_name@.len() > 0 ==> match update_target(pairs_view(params@)) {
            Some(repo) => r matches Ok(name) && name@ == repo,
            None => r matches Err(e) && e@ == plain(
                404,
                "Couldnt get the repo/dir name to which to push to"@,
            ),
        },
{
    if file_name.is_empty() {
        return Err(Response::plain(404, "Couldnt get a file name (might be a server error)"));
    }
    if params.len() == 0 {
        return Err(Response::plain(404, "Couldnt get the repo/dir name to which to push to"));
    }
    let first = &params[0];
    assert(pairs_view(params@)[0] == (first.0@, first.1@));
    if !same_text(first.0.as_str(), "where") {
        return Err(Response::plain(404, "Couldnt get the repo/dir name to which to push to"));
    }
    Ok(first.1.clone())
}

/// After looking for the target repository: a missing one is answered with
/// 404 "Dir/Repo with that name doesnt exist, create it before pushing".
/// Otherwise the trimmed body is decoded from base64; text that does not
/// decode is answered with 500 "Failed to write to file".
pub fn update_file_payload(repo_exists: bool, file_contents: &str) -> (r: Result<
    Vec<u8>,
    Response,
>)
    ensures
        !repo_exists ==> (r matches Err(e) && e@ == plain(
            404,
            "Dir/Repo with that name doesnt exist, create it before pushing"@,
        )),
        repo_exists ==> match base64_standard_decode(trim(file_contents@)) {
            Some(bytes) => r matches Ok(b) && b@ == bytes,
            None => r matches Err(e) && e@ == plain(500, "Failed to write to file"@),
        },
{
    if !repo_exists {
        return Err(
            Response::plain(404, "Dir/Repo with that name doesnt exist, create it before pushing"),
        );
    }
    let cs = chars_of(file_contents);
    let text = string_of(trimmed(cs.as_slice()));
    match decode_base64(text.as_str()) {
        Ok(bytes) => Ok(bytes),
        Err(_) => Err(Response::plain(500, "Failed to write to file")),
    }
}

/// The answer once the file has been written: 200 "Sucessfully updated
/// existing file" when it existed, 201 "Sucessfully created new file and wrote
/// to it" when it was created, and 500 "Failed to write to file" when writing
/// failed.
pub fn update_file_outcome(file_existed: bool, written: bool) -> (r: Response)
    ensures
        !written ==> r@ == plain(500, "Failed to write to file"@),
        written && file_existed ==> r@ == plain(200, "Sucessfully updated existing file"@),
        written && !file_existed ==> r@ == plain(
            201,
            "Sucessfully created new file and wrote to it"@,
        ),
{
    if !written {
        Response::plain(500, "Failed to write to file")
    } else if file_existed {
        Response::plain(200, "Sucessfully updated existing file")
    } else {
        Response::plain(201, "Sucessfully created new file and wrote to it")
    }
}

// ---------------------------------------------------------------------------
// Creating repositories
// ---------------------------------------------------------------------------

/// Checks a request for a new repository. It is named by the first
/// parameter, whose key must be `name`: no such parameter is answered with
/// 404 "Couldnt get the name the new dir/repo", an empty name with 404 "No
/// dir/repo name given".
pub fn create_dir_request(params: &Vec<(String, String)>) -> (r: Result<String, Response>)
    ensures
        ({
            let ps = pairs_view(params@);
            if ps.len() > 0 && ps[0].0 == "name"@ {
                if ps[0].1.len() == 0 {
                    r matches Err(e) && e@ == plain(404, "No dir/repo name given"@)
                } else {
                    r matches Ok(name) && name@ == ps[0].1
                }
            } else {
                r matches Err(e) && e@ == plain(404, "Couldnt get the name the new dir/repo"@)
            }
        }),
{
    if params.len() == 0 {
        return Err(Response::plain(404, "Couldnt get the name the new dir/repo"));
    }
    let first = &params[0];
    assert(pairs_view(params@)[0] == (first.0@, first.1@));
    if same_text(first.0.as_str(), "name") {
        if first.1.as_str().is_empty() {
            return Err(Response::plain(404, "No dir/repo name given"));
        }
        Ok(first.1.clone())
    } else {
        Err(Response::plain(404, "Couldnt get the name the new dir/repo"))
    }
}

/// After looking for the new repository and, when it was not there, creating
/// it: 404 "Dir/Repo with the same name already exists" when it was there
/// (then `created` is not read), 201 "Succesfully created new dir/repo" when
/// it was created, 500 "Internal Server Error" when creating it failed.
pub fn create_dir_outcome(already_exists: bool, created: bool) -> (r: Response)
    ensures
        already_exists ==> r@ == plain(404, "Dir/Repo with the same name already exists"@),
        !already_exists && created ==> r@ == plain(201, "Succesfully created new dir/repo"@),
        !already_exists && !created ==> r@ == plain(500, "Internal Server Error"@),
{
    if already_exists {
        Response::plain(404, "Dir/Repo with the same name already exists")
    } else if created {
        Response::plain(201, "Succesfully created new dir/repo")
    } else {
        Response::plain(500, "Internal Server Error")
    }
}

// ---------------------------------------------------------------------------
// Connections
// ---------------------------------------------------------------------------

/// The path that path validation accepted, or, when it refused the target,
/// 403 "Path blocked because path traversal was detected".
pub fn validated_path(validated: Option<String>) -> (r: Result<String, Response>)
    ensures
        validated is None ==> (r matches Err(e) && e@ == plain(
            403,
            "Path blocked because path traversal was detected"@,
        )),
        validated matches Some(p) ==> (r matches Ok(q) && q@ == p@),
{
    match validated {
        Some(p) => Ok(p),
        None => Err(Response::plain(403, "Path blocked because path traversal was detected")),
    }
}

} // verus!
