//! Campaign content: the manifest, scenes and choices of a loaded campaign.
use vstd::prelude::*;

use crate::id::ContentId;

verus! {

/// Returns the current content schema version.
pub fn schema_version() -> (v: u32)
    ensures
        v == 1,
{
    1
}

/// Basic information that describes a campaign.
#[derive(Debug)]
pub struct CampaignManifest {
    /// Unique identifier for the campaign.
    pub id: String,
    /// Display name shown to the player.
    pub name: String,
    /// Campaign version.
    pub version: String,
    /// Version of the manifest format expected by the engine.
    pub schema_version: u32,
    /// Ruleset or gameplay profile this campaign uses.
    pub rules_profile: String,
    /// Locale to use if the player has not selected one.
    pub default_locale: String,
    /// Scene where a new game begins.
    pub entry_scene: ContentId,
    /// Story arc that is active when the campaign starts.
    pub starting_arc: String,
}

/// A single scene in the story: its narrative text, the choices available
/// to the player, and whether it ends a path.
#[derive(Debug)]
pub struct SceneDefinition {
    /// Unique identifier for this scene.
    pub id: ContentId,
    /// Title displayed at the top of the scene.
    pub title: String,
    /// Narrative text split into paragraphs.
    pub body: Vec<String>,
    /// Choices the player can select from this scene.
    pub choices: Vec<ChoiceDefinition>,
    /// Indicates whether this scene has no further progression.
    pub terminal: bool,
}

/// A single option the player can choose.
#[derive(Debug)]
pub struct ChoiceDefinition {
    /// Internal identifier for the choice.
    pub id: String,
    /// Text shown to the player.
    pub label: String,
    /// Destination scene after selecting this choice; `None` leaves the
    /// outcome to another mechanism.
    pub target: Option<ContentId>,
}

/// A campaign after it has been loaded into memory.
#[derive(Debug)]
pub struct LoadedCampaign {
    /// Root folder where the campaign was loaded from, as text; paths of
    /// files under it are formed by joining names onto it with the
    /// platform's path separator.
    pub root: String,
    /// Campaign metadata parsed from `campaign.toml`.
    pub manifest: CampaignManifest,
    /// Every scene discovered inside the campaign's `scenes` directory.
    pub scenes: Vec<SceneDefinition>,
}

/// Some scene among `scenes` has the identifier `id`.
pub open spec fn has_scene(scenes: Seq<SceneDefinition>, id: Seq<char>) -> bool {
    exists|k: int| 0 <= k < scenes.len() && (#[trigger] scenes[k]).id@ == id
}

/// The position of the first scene in `scenes` with identifier `id`.
pub open spec fn is_first_scene_with(scenes: Seq<SceneDefinition>, id: Seq<char>, k: int) -> bool {
    &&& 0 <= k < scenes.len()
    &&& scenes[k].id@ == id
    &&& forall|j: int| 0 <= j < k ==> (#[trigger] scenes[j]).id@ != id
}

/// Whether some scene among `scenes` has the identifier `id`.
pub fn contains_scene(scenes: &Vec<SceneDefinition>, id: &ContentId) -> (found: bool)
    ensures
        found == has_scene(scenes@, id@),
{
    let mut k: usize = 0;
    while k < scenes.len()
        invariant
            k <= scenes@.len(),
            forall|j: int| 0 <= j < k ==> (#[trigger] scenes@[j]).id@ != id@,
        decreases scenes@.len() - k,
    {
        if scenes[k].id == *id {
            assert(scenes@[k as int].id@ == id@);
            return true;
        }
        k = k + 1;
    }
    false
}

impl LoadedCampaign {
    /// Returns the first scene whose identifier is `id`, if there is one.
    pub fn scene(&self, id: &ContentId) -> (found: Option<&SceneDefinition>)
        ensures
            found is None <==> !has_scene(self.scenes@, id@),
            found matches Some(s) ==> exists|k: int|
                is_first_scene_with(self.scenes@, id@, k) && *s == self.scenes@[k],
    {
        let mut k: usize = 0;
        while k < self.scenes.len()
            invariant
                k <= self.scenes@.len(),
                forall|j: int| 0 <= j < k ==> (#[trigger] self.scenes@[j]).id@ != id@,
            decreases self.scenes@.len() - k,
        {
            if self.scenes[k].id == *id {
                assert(is_first_scene_with(self.scenes@, id@, k as int));
                return Some(&self.scenes[k]);
            }
            k = k + 1;
        }
        None
    }
}

} // verus!
