//! What slicing reads of a project's scene document: the object ids of each
//! plate, all object ids, and the ids of the objects marked off the bed.
//! Two document shapes are accepted: `plates` as an array of plates, or as
//! an object whose own `plates` is that array. The caller hands over the
//! document's JSON values as read; anything of another JSON type is carried
//! as absent.

use vstd::prelude::*;

verus! {

/// A plate of the scene: its `objectIds` when that is an array, each
/// element as its text when it is a string (`None` for another value).
#[derive(Debug, Clone, PartialEq, Eq)]
pub struct ScenePlate {
    pub object_ids: Option<Vec<Option<String>>>,
}

/// The scene's `plates` member.
#[derive(Debug, Clone, PartialEq, Eq)]
pub enum PlatesField {
    /// An array of plates.
    Array(Vec<ScenePlate>),
    /// An object; its own `plates` when that is an array.
    Document(Option<Vec<ScenePlate>>),
    /// Absent, or of another JSON type.
    Other,
}

/// An element of the scene's `objects`: its `id` when a string, its
/// `off_bed` when a boolean.
#[derive(Debug, Clone, PartialEq, Eq)]
pub struct SceneObject {
    pub id: Option<String>,
    pub off_bed: Option<bool>,
}

/// The parts of a scene document that slicing reads.
#[derive(Debug, Clone, PartialEq, Eq)]
pub struct SceneDoc {
    pub plates: PlatesField,
    /// `objects`, when it is an array.
    pub objects: Option<Vec<SceneObject>>,
}

/// The texts among optional texts, in order.
pub open spec fn present_texts(s: Seq<Option<String>>) -> Seq<Seq<char>>
    decreases s.len(),
{
    if s.len() == 0 {
        Seq::empty()
    } else {
        present_texts(s.drop_last()) + match s.last() {
            Some(t) => seq![t@],
            None => Seq::<Seq<char>>::empty(),
        }
    }
}

/// Object ids of one plate (none when `objectIds` is not an array).
pub open spec fn plate_ids_of(p: ScenePlate) -> Seq<Seq<char>> {
    match p.object_ids {
        Some(v) => present_texts(v@),
        None => Seq::empty(),
    }
}

/// The plates of a scene, whichever shape it has.
pub open spec fn scene_plates(scene: SceneDoc) -> Seq<ScenePlate> {
    match scene.plates {
        PlatesField::Array(v) => v@,
        PlatesField::Document(Some(v)) => v@,
        _ => Seq::empty(),
    }
}

/// Object ids per plate.
pub open spec fn spec_plate_object_ids(scene: SceneDoc) -> Seq<Seq<Seq<char>>> {
    Seq::new(scene_plates(scene).len(), |i: int| plate_ids_of(scene_plates(scene)[i]))
}

/// Ids of the objects among `objs`, in order: all of them, or only those
/// marked off the bed.
pub open spec fn object_ids_where(objs: Seq<SceneObject>, only_off_bed: bool) -> Seq<Seq<char>>
    decreases objs.len(),
{
    if objs.len() == 0 {
        Seq::empty()
    } else {
        let o = objs.last();
        let kept = !only_off_bed || o.off_bed == Some(true);
        object_ids_where(objs.drop_last(), only_off_bed) + match o.id {
            Some(t) => if kept {
                seq![t@]
            } else {
                Seq::<Seq<char>>::empty()
            },
            None => Seq::<Seq<char>>::empty(),
        }
    }
}

/// Ids of the scene's objects (all of them, or only those off the bed).
pub open spec fn scene_object_ids(scene: SceneDoc, only_off_bed: bool) -> Seq<Seq<char>> {
    match scene.objects {
        Some(v) => object_ids_where(v@, only_off_bed),
        None => Seq::empty(),
    }
}

fn texts_of(v: &Vec<Option<String>>) -> (r: Vec<String>)
    ensures
        r.deep_view() == present_texts(v@),
{
    let mut r: Vec<String> = Vec::new();
    let mut i: usize = 0;
    while i < v.len()
        invariant
            i <= v@.len(),
            r.deep_view() == present_texts(v@.take(i as int)),
        decreases v@.len() - i,
    {
        assert(v@.take(i + 1).drop_last() =~= v@.take(i as int));
        assert(v@.take(i + 1).last() == v@[i as int]);
        let ghost before = r.deep_view();
        match &v[i] {
            Some(t) => {
                r.push(t.clone());
                assert(r.deep_view() =~= before + seq![t@]);
            },
            None => {
                assert(before + Seq::<Seq<char>>::empty() =~= before);
            },
        }
        i = i + 1;
    }
    assert(v@.take(v@.len() as int) =~= v@);
    r
}

/// Object ids of each plate of the scene; no plate when the document has
/// none in either shape.
pub fn plate_object_ids(scene: &SceneDoc) -> (r: Vec<Vec<String>>)
    ensures
        r.deep_view() == spec_plate_object_ids(*scene),
{
    let empty: Vec<ScenePlate> = Vec::new();
    let plates: &Vec<ScenePlate> = match &scene.plates {
        PlatesField::Array(v) => v,
        PlatesField::Document(Some(v)) => v,
        _ => &empty,
    };
    assert(plates@ == scene_plates(*scene));
    let mut r: Vec<Vec<String>> = Vec::new();
    let mut i: usize = 0;
    while i < plates.len()
        invariant
            i <= plates@.len(),
            plates@ == scene_plates(*scene),
            r@.len() == i,
            forall|k: int| 0 <= k < i ==> (#[trigger] r@[k]).deep_view() == plate_ids_of(plates@[k]),
        decreases plates@.len() - i,
    {
        let ids = match &plates[i].object_ids {
            Some(v) => texts_of(v),
            None => {
                let e: Vec<String> = Vec::new();
                assert(e.deep_view() =~= Seq::<Seq<char>>::empty());
                e
            },
        };
        r.push(ids);
        i = i + 1;
    }
    assert(r.deep_view() =~= spec_plate_object_ids(*scene));
    r
}

fn ids_where(objs: &Vec<SceneObject>, only_off_bed: bool) -> (r: Vec<String>)
    ensures
        r.deep_view() == object_ids_where(objs@, only_off_bed),
{
    let mut r: Vec<String> = Vec::new();
    let mut i: usize = 0;
    while i < objs.len()
        invariant
            i <= objs@.len(),
            r.deep_view() == object_ids_where(objs@.take(i as int), only_off_bed),
        decreases objs@.len() - i,
    {
        assert(objs@.take(i + 1).drop_last() =~= objs@.take(i as int));
        assert(objs@.take(i + 1).last() == objs@[i as int]);
        let ghost before = r.deep_view();
        let o = &objs[i];
        let kept = !only_off_bed || o.off_bed == Some(true);
        match &o.id {
            Some(t) => {
                if kept {
                    r.push(t.clone());
                    assert(r.deep_view() =~= before + seq![t@]);
                } else {
                    assert(before + Seq::<Seq<char>>::empty() =~= before);
                }
            },
            None => {
                assert(before + Seq::<Seq<char>>::empty() =~= before);
            },
        }
        i = i + 1;
    }
    assert(objs@.take(objs@.len() as int) =~= objs@);
    r
}

/// Ids of all the scene's objects, in order (used when the scene has no
/// plate).
pub fn all_object_ids(scene: &SceneDoc) -> (r: Vec<String>)
    ensures
        r.deep_view() == scene_object_ids(*scene, false),
{
    match &scene.objects {
        Some(v) => ids_where(v, false),
        None => {
            let e: Vec<String> = Vec::new();
            assert(e.deep_view() =~= Seq::<Seq<char>>::empty());
            e
        },
    }
}

/// Ids of the objects that the client marked off the bed
/// (`off_bed: true`), in order.
pub fn off_bed_ids(scene: &SceneDoc) -> (r: Vec<String>)
    ensures
        r.deep_view() == scene_object_ids(*scene, true),
{
    match &scene.objects {
        Some(v) => ids_where(v, true),
        None => {
            let e: Vec<String> = Vec::new();
            assert(e.deep_view() =~= Seq::<Seq<char>>::empty());
            e
        },
    }
}

} // verus!
