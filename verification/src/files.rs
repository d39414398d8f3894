//! Per-user file spaces `<root>/users/<uid>/{models,gcodes,thumbnails}`.
//!
//! Paths are built only from typed identifiers and validated extensions:
//! no free user text enters a path, and every file name is checked to be a
//! single, non-empty component before it is joined to a directory.

use vstd::prelude::*;

use crate::errors::concat2;
use crate::ids::{is_uuid_char, uuid_text, GcodeId, ModelId, UserId};
use crate::text::chars_of;
use crate::worker::{join_path, join_text};

verus! {

/// Failure of the file store.
#[derive(Debug)]
pub enum FilesError {
    /// Input/output error.
    Io(std::io::Error),
    /// Unsafe path component (separator, `..`, empty), with the name.
    UnsafeName(String),
}

/// A user's file sub-space.
#[derive(Debug, Clone, Copy, PartialEq, Eq)]
pub enum Space {
    Models,
    Gcodes,
    Thumbnails,
}

/// Directory name of a space.
pub open spec fn space_dir_name(space: Space) -> Seq<char> {
    match space {
        Space::Models => "models"@,
        Space::Gcodes => "gcodes"@,
        Space::Thumbnails => "thumbnails"@,
    }
}

impl Space {
    /// Directory name of the space.
    pub fn dir(self) -> (r: &'static str)
        ensures
            r@ == space_dir_name(self),
    {
        match self {
            Space::Models => "models",
            Space::Gcodes => "gcodes",
            Space::Thumbnails => "thumbnails",
        }
    }
}

/// An ASCII letter or digit.
pub open spec fn is_ascii_alnum(c: char) -> bool {
    ('0' <= c && c <= '9') || ('A' <= c && c <= 'Z') || ('a' <= c && c <= 'z')
}

/// An extension made of ASCII letters and digits only, and not empty.
pub open spec fn is_safe_ext(ext: Seq<char>) -> bool {
    ext.len() > 0 && forall|i: int| 0 <= i < ext.len() ==> is_ascii_alnum(#[trigger] ext[i])
}

/// A name that is one path component: not empty, not `..`, and free of
/// `/`, `\` and NUL.
pub open spec fn is_safe_component(name: Seq<char>) -> bool {
    &&& name.len() > 0
    &&& name != ".."@
    &&& !name.contains('/')
    &&& !name.contains('\\')
    &&& !name.contains('\0')
}

/// Accepts an extension made of ASCII letters and digits only.
pub fn safe_ext(ext: &str) -> (r: Result<&str, FilesError>)
    ensures
        is_safe_ext(ext@) ==> (r matches Ok(e) && e@ == ext@),
        !is_safe_ext(ext@) ==> (r matches Err(FilesError::UnsafeName(n)) && n@ == ext@),
{
    let v = chars_of(ext);
    let mut ok = v.len() > 0;
    let mut i: usize = 0;
    while i < v.len()
        invariant
            i <= v.len(),
            v@ == ext@,
            ok == (v.len() > 0 && forall|j: int| 0 <= j < i ==> is_ascii_alnum(#[trigger] v@[j])),
        decreases v.len() - i,
    {
        let c = v[i];
        let alnum = ('0' <= c && c <= '9') || ('A' <= c && c <= 'Z') || ('a' <= c && c <= 'z');
        if !alnum {
            ok = false;
        }
        proof {
            if ok {
                assert forall|j: int| 0 <= j < i + 1 implies is_ascii_alnum(#[trigger] v@[j]) by {
                    if j == i {
                    }
                }
            }
        }
        i = i + 1;
    }
    if ok {
        Ok(ext)
    } else {
        Err(FilesError::UnsafeName(ext.to_owned()))
    }
}

/// Rejects a name that is empty, `..`, or holds a separator or NUL.
pub fn ensure_component(name: &str) -> (r: Result<(), FilesError>)
    ensures
        is_safe_component(name@) ==> r is Ok,
        !is_safe_component(name@) ==> (r matches Err(FilesError::UnsafeName(n)) && n@ == name@),
{
    let v = chars_of(name);
    let mut bad = v.len() == 0 || (v.len() == 2 && v[0] == '.' && v[1] == '.');
    proof {
        if v.len() == 2 && v[0] == '.' && v[1] == '.' {
            assert(v@ =~= ".."@) by {
                reveal_strlit("..");
            }
        }
        if v@ == ".."@ {
            reveal_strlit("..");
            assert(v@.len() == 2 && v@[0] == '.' && v@[1] == '.');
        }
    }
    let mut i: usize = 0;
    while i < v.len()
        invariant
            i <= v.len(),
            v@ == name@,
            bad == (v@.len() == 0 || v@ == ".."@ || exists|j: int|
                0 <= j < i && (v@[j] == '/' || v@[j] == '\\' || v@[j] == '\0')),
        decreases v.len() - i,
    {
        let c = v[i];
        if c == '/' || c == '\\' || c == '\0' {
            bad = true;
        }
        i = i + 1;
    }
    proof {
        if !bad {
            assert(!v@.contains('/'));
            assert(!v@.contains('\\'));
            assert(!v@.contains('\0'));
        } else if v@.len() != 0 && v@ != ".."@ {
            let j = choose|j: int|
                0 <= j < v.len() && (v@[j] == '/' || v@[j] == '\\' || v@[j] == '\0');
            assert(v@.contains(v@[j]));
        }
    }
    if bad {
        Err(FilesError::UnsafeName(name.to_owned()))
    } else {
        Ok(())
    }
}

/// File store anchored on a root directory (`data/`).
#[derive(Debug, Clone)]
pub struct FileStore {
    root: String,
}

/// `<root>/users/<uid>`.
pub open spec fn user_root_path(root: Seq<char>, user: UserId) -> Seq<char> {
    join_text(join_text(root, "users"@), uuid_text(user.0))
}

/// `<root>/users/<uid>/<space>`.
pub open spec fn space_path(root: Seq<char>, user: UserId, space: Space) -> Seq<char> {
    join_text(user_root_path(root, user), space_dir_name(space))
}

impl FileStore {
    /// The root directory.
    pub closed spec fn root_path(&self) -> Seq<char> {
        self.root@
    }

    /// A store rooted at `root`.
    pub fn new(root: &str) -> (r: Self)
        ensures
            r.root_path() == root@,
    {
        FileStore { root: root.to_owned() }
    }

    /// The root directory.
    pub fn root(&self) -> (r: &str)
        ensures
            r@ == self.root_path(),
    {
        self.root.as_str()
    }

    /// A user's root: `<root>/users/<uid>`.
    pub fn user_root(&self, user: UserId) -> (r: String)
        ensures
            r@ == user_root_path(self.root_path(), user),
    {
        proof {
            reveal_strlit("users");
        }
        let users = join_path(self.root.as_str(), "users");
        let id = user.to_text();
        assert(is_uuid_char(id@[0]));
        join_path(users.as_str(), id.as_str())
    }

    /// A user's space directory: `<root>/users/<uid>/<space>`.
    pub fn space_dir(&self, user: UserId, space: Space) -> (r: String)
        ensures
            r@ == space_path(self.root_path(), user, space),
    {
        let base = self.user_root(user);
        proof {
            reveal_strlit("models");
            reveal_strlit("gcodes");
            reveal_strlit("thumbnails");
        }
        join_path(base.as_str(), space.dir())
    }

    /// Directory and final path of a file `name` of a user's space; the
    /// name must be a single safe component.
    pub fn target(&self, user: UserId, space: Space, name: &str) -> (r: Result<(String, String), FilesError>)
        ensures
            is_safe_component(name@) ==> (r matches Ok((d, p)) && d@ == space_path(
                self.root_path(),
                user,
                space,
            ) && p@ == join_text(space_path(self.root_path(), user, space), name@)),
            !is_safe_component(name@) ==> (r matches Err(FilesError::UnsafeName(n)) && n@ == name@),
    {
        ensure_component(name)?;
        let dir = self.space_dir(user, space);
        assert(name@[0] != '/') by {
            assert(!name@.contains('/'));
        }
        let path = join_path(dir.as_str(), name);
        Ok((dir, path))
    }
}

/// Users' spaces are disjoint: no path under one user's root, whatever
/// follows it, is a path under another user's root.
pub proof fn law_user_spaces_disjoint(
    root: Seq<char>,
    a: UserId,
    b: UserId,
    rest_a: Seq<char>,
    rest_b: Seq<char>,
)
    requires
        a.0 != b.0,
    ensures
        user_root_path(root, a) + rest_a != user_root_path(root, b) + rest_b,
{
    reveal_strlit("users");
    reveal_strlit("/");
    let base = join_text(root, "users"@);
    assert(base.len() > 0 && base.last() == 's');
    let pa = user_root_path(root, a);
    let pb = user_root_path(root, b);
    assert(pa == base + "/"@ + uuid_text(a.0));
    assert(pb == base + "/"@ + uuid_text(b.0));
    if pa + rest_a == pb + rest_b {
        let n: int = base.len() as int + 1;
        assert((pa + rest_a).subrange(n, n + 36) =~= uuid_text(a.0));
        assert((pb + rest_b).subrange(n, n + 36) =~= uuid_text(b.0));
        crate::ids::lemma_uuid_text_injective(a.0, b.0);
    }
}

/// A name made of a UUID text, a dot and a safe extension is one safe
/// path component.
proof fn lemma_id_name_is_safe(id: Seq<char>, ext: Seq<char>)
    requires
        id.len() == 36,
        forall|i: int| 0 <= i < id.len() ==> is_uuid_char(#[trigger] id[i]),
        forall|i: int| 0 <= i < ext.len() ==> is_ascii_alnum(#[trigger] ext[i]),
    ensures
        is_safe_component(id + "."@ + ext),
{
    reveal_strlit(".");
    reveal_strlit("..");
    let n = id + "."@ + ext;
    assert forall|i: int| 0 <= i < n.len() implies n[i] != '/' && n[i] != '\\' && n[i] != '\0' by {
        if i < 36 {
            assert(n[i] == id[i]);
            assert(is_uuid_char(id[i]));
        } else if i == 36 {
            assert(n[i] == '.');
        } else {
            assert(n[i] == ext[i - 37]);
            assert(is_ascii_alnum(ext[i - 37]));
        }
    }
    assert(n.len() != 2);
}

/// File name of a stored model: `<model_id>.<ext>`, the extension checked.
/// The name is a single safe component, so it cannot leave its directory.
pub fn model_file_name(model: ModelId, ext: &str) -> (r: Result<String, FilesError>)
    ensures
        is_safe_ext(ext@) ==> (r matches Ok(n) && n@ == uuid_text(model.0) + "."@ + ext@),
        !is_safe_ext(ext@) ==> (r matches Err(FilesError::UnsafeName(n)) && n@ == ext@),
        r matches Ok(n) ==> is_safe_component(n@),
{
    let e = safe_ext(ext)?;
    let id = model.to_text();
    proof {
        lemma_id_name_is_safe(id@, ext@);
    }
    let stem = concat2(id.as_str(), ".");
    Ok(concat2(stem.as_str(), e))
}

/// File name of a stored G-code: `<gcode_id>.gcode`, a single safe
/// component.
pub fn gcode_file_name(gcode: GcodeId) -> (r: String)
    ensures
        r@ == uuid_text(gcode.0) + ".gcode"@,
        is_safe_component(r@),
{
    let id = gcode.to_text();
    proof {
        reveal_strlit(".gcode");
        reveal_strlit("gcode");
        reveal_strlit(".");
        assert(".gcode"@ =~= "."@ + "gcode"@);
        assert(id@ + ".gcode"@ =~= id@ + "."@ + "gcode"@);
        lemma_id_name_is_safe(id@, "gcode"@);
    }
    concat2(id.as_str(), ".gcode")
}

/// File name of a stored thumbnail: `<gcode_id>.png`, a single safe
/// component.
pub fn thumbnail_file_name(gcode: GcodeId) -> (r: String)
    ensures
        r@ == uuid_text(gcode.0) + ".png"@,
        is_safe_component(r@),
{
    let id = gcode.to_text();
    proof {
        reveal_strlit(".png");
        reveal_strlit("png");
        reveal_strlit(".");
        assert(".png"@ =~= "."@ + "png"@);
        assert(id@ + ".png"@ =~= id@ + "."@ + "png"@);
        lemma_id_name_is_safe(id@, "png"@);
    }
    concat2(id.as_str(), ".png")
}

} // verus!
