use vstd::prelude::*;
use crate::config::SceneConfig;
use crate::strutil::str_eq;

verus! {

/// The outcome of a whole run.
#[derive(Clone, Debug)]
pub struct RunSummary {
    pub scene_count: usize,
    pub output_dir: String,
    pub preview_path: String,
}

/// Two of the scenes share an identifier.
pub open spec fn spec_has_duplicate_id(scenes: Seq<SceneConfig>) -> bool {
    exists|i: int, j: int|
        0 <= i < j < scenes.len() && (#[trigger] scenes[i].id)@ == (#[trigger] scenes[j].id)@
}

/// Finds a duplicated scene identifier, if any: every scene must carry a
/// unique one before a run may proceed.
pub fn first_duplicate_scene_id(scenes: &Vec<SceneConfig>) -> (r: Option<String>)
    ensures
        match r {
            Some(id) => spec_has_duplicate_id(scenes@) && (exists|j: int|
                0 <= j < scenes@.len() && id@ == (#[trigger] scenes@[j].id)@),
            None => !spec_has_duplicate_id(scenes@),
        },
{
    let n = scenes.len();
    let mut j: usize = 1;
    while j < n
        invariant
            n == scenes@.len(),
            1 <= j || n == 0,
            j <= n + 1,
            forall|a: int, b: int|
                0 <= a < b < j && b < n ==> (#[trigger] scenes@[a].id)@ != (
                #[trigger] scenes@[b].id)@,
        decreases n - j,
    {
        let mut i: usize = 0;
        while i < j
            invariant
                n == scenes@.len(),
                j < n,
                i <= j,
                forall|a: int| 0 <= a < i ==> (#[trigger] scenes@[a].id)@ != scenes@[j as int].id@,
            decreases j - i,
        {
            if str_eq(scenes[i].id.as_str(), scenes[j].id.as_str()) {
                return Some(scenes[j].id.clone());
            }
            i = i + 1;
        }
        j = j + 1;
    }
    None
}

/// The gallery-relative path of a scene's raw capture.
pub fn raw_rel_path(scene_id: &str) -> (r: String)
    ensures
        r@ == "raw/"@ + scene_id@ + ".png"@,
{
    let mut s = "raw/".to_owned();
    s.append(scene_id);
    s.append(".png");
    s
}

/// The gallery-relative path of a scene's final image.
pub fn final_rel_path(filename: &str) -> (r: String)
    ensures
        r@ == "final/"@ + filename@,
{
    let mut s = "final/".to_owned();
    s.append(filename);
    s
}

} // verus!
