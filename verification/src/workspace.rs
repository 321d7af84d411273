//! The scratch files of one request: an identifier that no other request
//! shares, and the two paths derived from it.

use vstd::prelude::*;
use vstd::string::*;

verus! {

/// Whether `c` is a digit or one of the letters `a` to `f`.
pub open spec fn is_lower_hex(c: char) -> bool {
    ('0' <= c && c <= '9') || ('a' <= c && c <= 'f')
}

/// The shape of a workspace identifier: 36 characters in five groups of
/// lower-case hexadecimal digits, joined by hyphens, where the third group
/// starts with `4` and the fourth with `8`, `9`, `a` or `b`.
pub open spec fn is_workspace_id(id: Seq<char>) -> bool {
    &&& id.len() == 36
    &&& forall|i: int|
        0 <= i < 36 ==> if i == 8 || i == 13 || i == 18 || i == 23 {
            #[trigger] id[i] == '-'
        } else {
            is_lower_hex(id[i])
        }
    &&& id[14] == '4'
    &&& (id[19] == '8' || id[19] == '9' || id[19] == 'a' || id[19] == 'b')
}

/// The path of the entry `name` below the directory `root`: a separator
/// stands between the two unless `root` is empty or already ends in one.
pub open spec fn join(root: Seq<char>, name: Seq<char>) -> Seq<char> {
    if root.len() == 0 || root.last() == '/' {
        root + name
    } else {
        root + seq!['/'] + name
    }
}

/// The name of the source file of the workspace `id`.
pub open spec fn source_name(id: Seq<char>, extension: Seq<char>) -> Seq<char> {
    id + seq!['.'] + extension
}

/// The scratch files of one request.
pub struct Workspace {
    /// The identifier that keys the files.
    pub id: String,
    /// The scratch directory that holds them.
    pub root: String,
    /// Where the submitted code is written.
    pub source_path: String,
    /// The compiled artifact of a compiled language.
    pub target_path: String,
}

/// The model of a [`Workspace`].
pub struct WorkspaceView {
    pub id: Seq<char>,
    pub root: Seq<char>,
    pub source_path: Seq<char>,
    pub target_path: Seq<char>,
}

impl View for Workspace {
    type V = WorkspaceView;

    open spec fn view(&self) -> WorkspaceView {
        WorkspaceView {
            id: self.id@,
            root: self.root@,
            source_path: self.source_path@,
            target_path: self.target_path@,
        }
    }
}

/// The workspace that `id` keys below `root`: the target is the entry named
/// by the identifier, the source file the same name with the extension.
pub open spec fn layout(root: Seq<char>, id: Seq<char>, extension: Seq<char>) -> WorkspaceView {
    WorkspaceView {
        id,
        root,
        source_path: join(root, source_name(id, extension)),
        target_path: join(root, id),
    }
}

/// Draws a fresh identifier: `uuid::Uuid::new_v4`, written out by the
/// `Display` of `uuid::Uuid`.
///
/// Trusted: the identifier is random, so the contract states only the shape
/// that every outcome has, which is the hyphenated lower-case form of a
/// version 4 identifier. The call fails where the operating system cannot
/// supply random bytes.
#[verifier::external_body]
fn random_id() -> (id: String)
    ensures
        is_workspace_id(id@),
{
    uuid::Uuid::new_v4().to_string()
}

/// Joins a directory and an entry name.
fn join_path(root: &str, name: &str) -> (path: String)
    ensures
        path@ == join(root@, name@),
{
    let n: usize = root.unicode_len();
    let mut path = String::from_str(root);
    if n != 0 && root.get_char(n - 1) != '/' {
        proof {
            reveal_strlit("/");
            assert("/"@ =~= seq!['/']);
        }
        path.append("/");
    }
    path.append(name);
    path
}

impl Workspace {
    /// The workspace that the identifier `id` keys below `root`.
    pub fn with_id(root: &str, id: &str, extension: &str) -> (ws: Workspace)
        ensures
            ws@ == layout(root@, id@, extension@),
    {
        let mut name = String::from_str(id);
        proof {
            reveal_strlit(".");
            assert("."@ =~= seq!['.']);
        }
        name.append(".");
        name.append(extension);
        Workspace {
            id: String::from_str(id),
            root: String::from_str(root),
            source_path: join_path(root, name.as_str()),
            target_path: join_path(root, id),
        }
    }

    /// Names a workspace for a new request below `root`, under a fresh
    /// identifier. Nothing is created on disk.
    pub fn acquire(root: &str, extension: &str) -> (ws: Workspace)
        ensures
            is_workspace_id(ws@.id),
            ws@ == layout(root@, ws@.id, extension@),
    {
        let id = random_id();
        Workspace::with_id(root, id.as_str(), extension)
    }
}

/// Two workspaces below one root never share a path. Where the identifiers
/// differ and have the same length, the four paths are pairwise distinct,
/// whatever the two extensions are.
pub proof fn lemma_distinct_ids_distinct_paths(
    root: Seq<char>,
    a: Seq<char>,
    a_extension: Seq<char>,
    b: Seq<char>,
    b_extension: Seq<char>,
)
    requires
        a.len() == b.len(),
        a != b,
    ensures
        layout(root, a, a_extension).target_path != layout(root, b, b_extension).target_path,
        layout(root, a, a_extension).source_path != layout(root, b, b_extension).source_path,
        layout(root, a, a_extension).source_path != layout(root, b, b_extension).target_path,
        layout(root, a, a_extension).target_path != layout(root, b, b_extension).source_path,
        layout(root, a, a_extension).source_path != layout(root, a, a_extension).target_path,
        layout(root, b, b_extension).source_path != layout(root, b, b_extension).target_path,
{
    let prefix = join(root, Seq::empty());
    let p = prefix.len() as int;
    assert forall|name: Seq<char>| #[trigger] join(root, name) =~= prefix + name by {}
    let ta = join(root, a);
    let tb = join(root, b);
    let sa = join(root, source_name(a, a_extension));
    let sb = join(root, source_name(b, b_extension));
    assert(ta.skip(p) =~= a);
    assert(tb.skip(p) =~= b);
    assert(sa.skip(p).take(a.len() as int) =~= a);
    assert(sb.skip(p).take(b.len() as int) =~= b);
    assert(sa.len() != tb.len());
    assert(sb.len() != ta.len());
    assert(sa.len() != ta.len());
    assert(sb.len() != tb.len());
}

/// The workspaces of two requests below one root share no path, provided
/// their identifiers differ: both have the shape of an identifier, so the
/// source and target of the one are neither source nor target of the other,
/// whatever the languages of the two requests are.
pub proof fn lemma_workspaces_are_disjoint(a: WorkspaceView, b: WorkspaceView)
    requires
        is_workspace_id(a.id),
        is_workspace_id(b.id),
        a.id != b.id,
        a.root == b.root,
        exists|extension: Seq<char>| a == layout(a.root, a.id, extension),
        exists|extension: Seq<char>| b == layout(b.root, b.id, extension),
    ensures
        a.source_path != b.source_path,
        a.source_path != b.target_path,
        a.target_path != b.source_path,
        a.target_path != b.target_path,
{
    let a_extension = choose|extension: Seq<char>| a == layout(a.root, a.id, extension);
    let b_extension = choose|extension: Seq<char>| b == layout(b.root, b.id, extension);
    lemma_distinct_ids_distinct_paths(a.root, a.id, a_extension, b.id, b_extension);
}

} // verus!
