//! Campaign validation: every problem found in a loaded campaign, reported
//! in a stable order.
use vstd::prelude::*;

use crate::diagnostic::{
    all_errors, diagnostics_sorted, diagnostics_view, lemma_sorted_errors_unique, sort_diagnostics, Diagnostic,
    DiagnosticView, Severity,
};
use crate::id::ContentId;
use crate::model::{contains_scene, has_scene, schema_version, ChoiceDefinition, LoadedCampaign, SceneDefinition};
use crate::permutation::{
    firsts, lemma_firsts_repeats_permutation, lemma_map_values_permutation, lemma_sum_map_concat,
    lemma_sum_map_permutation, repeats, sum_map,
};
use crate::text::{decimal, decimal_string, push_char};
use vstd::multiset::Multiset;

verus! {

/// `root` is a bare drive such as `C:`: an ASCII letter and a colon.
pub open spec fn is_drive_root(root: Seq<char>) -> bool {
    &&& root.len() == 2
    &&& root[1] == ':'
    &&& ('a' <= root[0] <= 'z' || 'A' <= root[0] <= 'Z')
}

/// The relative file name `name` joined onto the directory path `root` on a
/// platform whose main path separator is `separator`: `separator` goes
/// between them unless `root` is empty, already ends with `/` or
/// `separator`, or, where the separator is `\`, is a bare drive.
pub open spec fn join_path(root: Seq<char>, name: Seq<char>, separator: char) -> Seq<char> {
    if root.len() == 0 {
        name
    } else if root[root.len() - 1] == '/' || root[root.len() - 1] == separator || (separator == '\\'
        && is_drive_root(root)) {
        root + name
    } else {
        root + seq![separator] + name
    }
}

/// The path of a campaign's manifest file.
pub open spec fn manifest_path(root: Seq<char>, separator: char) -> Seq<char> {
    join_path(root, "campaign.toml"@, separator)
}

/// An error diagnostic with the given code and message.
pub open spec fn error_diagnostic(code: Seq<char>, message: Seq<char>, path: Option<Seq<char>>) -> DiagnosticView {
    DiagnosticView { severity: Severity::Error, code, message, path }
}

/// The manifest names a schema version other than the supported one.
pub open spec fn unsupported_schema_diagnostic(root: Seq<char>, version: u32, separator: char) -> DiagnosticView {
    error_diagnostic(
        "manifest.unsupported-schema"@,
        "schema version "@ + decimal(version as nat) + " is not supported"@,
        Some(manifest_path(root, separator)),
    )
}

/// A scene identifier is used by `count` scenes.
pub open spec fn duplicate_scene_diagnostic(id: Seq<char>, count: nat) -> DiagnosticView {
    error_diagnostic(
        "scene.duplicate-id"@,
        "scene ID `"@ + id + "` appears "@ + decimal(count) + " times"@,
        None,
    )
}

/// The manifest's entry scene is not among the scenes.
pub open spec fn missing_entry_diagnostic(root: Seq<char>, entry: Seq<char>, separator: char) -> DiagnosticView {
    error_diagnostic(
        "manifest.missing-entry-scene"@,
        "entry scene `"@ + entry + "` does not exist"@,
        Some(manifest_path(root, separator)),
    )
}

/// A scene repeats a choice identifier.
pub open spec fn duplicate_choice_diagnostic(scene: Seq<char>, choice: Seq<char>) -> DiagnosticView {
    error_diagnostic(
        "scene.duplicate-choice-id"@,
        "scene `"@ + scene + "` repeats choice ID `"@ + choice + "`"@,
        None,
    )
}

/// A choice of a nonterminal scene has no target.
pub open spec fn choice_without_target_diagnostic(scene: Seq<char>, choice: Seq<char>) -> DiagnosticView {
    error_diagnostic(
        "scene.choice-missing-target"@,
        "choice `"@ + choice + "` in scene `"@ + scene + "` has no target"@,
        None,
    )
}

/// A choice targets a scene that does not exist.
pub open spec fn missing_target_diagnostic(scene: Seq<char>, choice: Seq<char>, target: Seq<char>) -> DiagnosticView {
    error_diagnostic(
        "scene.missing-target"@,
        "choice `"@ + choice + "` in scene `"@ + scene + "` targets missing scene `"@ + target + "`"@,
        None,
    )
}

/// A nonterminal scene has no choices.
pub open spec fn no_choices_diagnostic(scene: Seq<char>) -> DiagnosticView {
    error_diagnostic(
        "scene.no-choices"@,
        "nonterminal scene `"@ + scene + "` has no choices"@,
        None,
    )
}

/// How many of the first `k` scenes have the identifier `id`.
pub open spec fn scene_count(scenes: Seq<SceneDefinition>, id: Seq<char>, k: int) -> nat
    decreases k,
{
    if k <= 0 {
        0
    } else {
        scene_count(scenes, id, k - 1) + if scenes[k - 1].id@ == id { 1nat } else { 0nat }
    }
}

/// No scene before position `k` has the identifier of scene `k`.
pub open spec fn first_with_id(scenes: Seq<SceneDefinition>, k: int) -> bool {
    forall|j: int| 0 <= j < k ==> (#[trigger] scenes[j]).id@ != scenes[k].id@
}

/// The duplicate-identifier diagnostics for the first `k` scenes: one for
/// each identifier that more than one scene has, at its first scene.
pub open spec fn duplicate_scene_part(scenes: Seq<SceneDefinition>, k: int) -> Seq<DiagnosticView>
    decreases k,
{
    if k <= 0 {
        seq![]
    } else {
        let id = scenes[k - 1].id@;
        let count = scene_count(scenes, id, scenes.len() as int);
        duplicate_scene_part(scenes, k - 1) + if first_with_id(scenes, k - 1) && count > 1 {
            seq![duplicate_scene_diagnostic(id, count)]
        } else {
            seq![]
        }
    }
}

/// Choice `j` of `choices` repeats the identifier of an earlier choice.
pub open spec fn repeats_choice_id(choices: Seq<ChoiceDefinition>, j: int) -> bool {
    exists|m: int| 0 <= m < j && (#[trigger] choices[m]).id@ == choices[j].id@
}

/// The diagnostics for choice `j` of `scene`, in the campaign's `scenes`.
pub open spec fn choice_diagnostics(scenes: Seq<SceneDefinition>, scene: SceneDefinition, j: int) -> Seq<DiagnosticView> {
    let choices = scene.choices@;
    let choice = choices[j];
    (if repeats_choice_id(choices, j) {
        seq![duplicate_choice_diagnostic(scene.id@, choice.id@)]
    } else {
        seq![]
    }) + (if !scene.terminal && choice.target is None {
        seq![choice_without_target_diagnostic(scene.id@, choice.id@)]
    } else {
        seq![]
    }) + match choice.target {
        Some(t) => if !has_scene(scenes, t@) {
            seq![missing_target_diagnostic(scene.id@, choice.id@, t@)]
        } else {
            seq![]
        },
        None => seq![],
    }
}

/// The diagnostics for the first `j` choices of `scene`.
pub open spec fn choices_part(scenes: Seq<SceneDefinition>, scene: SceneDefinition, j: int) -> Seq<DiagnosticView>
    decreases j,
{
    if j <= 0 {
        seq![]
    } else {
        choices_part(scenes, scene, j - 1) + choice_diagnostics(scenes, scene, j - 1)
    }
}

/// The diagnostics for one scene: those of its choices, then one if it is
/// nonterminal and has no choices.
pub open spec fn scene_diagnostics(scenes: Seq<SceneDefinition>, scene: SceneDefinition) -> Seq<DiagnosticView> {
    choices_part(scenes, scene, scene.choices@.len() as int) + if !scene.terminal && scene.choices@.len() == 0 {
        seq![no_choices_diagnostic(scene.id@)]
    } else {
        seq![]
    }
}

/// The diagnostics for the first `k` scenes.
pub open spec fn scenes_part(scenes: Seq<SceneDefinition>, k: int) -> Seq<DiagnosticView>
    decreases k,
{
    if k <= 0 {
        seq![]
    } else {
        scenes_part(scenes, k - 1) + scene_diagnostics(scenes, scenes[k - 1])
    }
}

/// Every problem in `campaign`: an unsupported schema version, scene
/// identifiers used more than once, a missing entry scene, and for each
/// scene its repeated choice identifiers, choices without a target in a
/// nonterminal scene, targets that name no scene, and a nonterminal scene
/// without choices. The manifest's path is joined on a platform whose main
/// path separator is `separator`.
pub open spec fn campaign_problems(campaign: &LoadedCampaign, separator: char) -> Seq<DiagnosticView> {
    let scenes = campaign.scenes@;
    let root = campaign.root@;
    (if campaign.manifest.schema_version != 1 {
        seq![unsupported_schema_diagnostic(root, campaign.manifest.schema_version, separator)]
    } else {
        seq![]
    }) + duplicate_scene_part(scenes, scenes.len() as int) + (if !has_scene(
        scenes,
        campaign.manifest.entry_scene@,
    ) {
        seq![missing_entry_diagnostic(root, campaign.manifest.entry_scene@, separator)]
    } else {
        seq![]
    }) + scenes_part(scenes, scenes.len() as int)
}


proof fn lemma_duplicate_part_errors(scenes: Seq<SceneDefinition>, k: int)
    ensures
        all_errors(duplicate_scene_part(scenes, k)),
    decreases k,
{
    if k > 0 {
        lemma_duplicate_part_errors(scenes, k - 1);
    }
}

proof fn lemma_choices_part_errors(scenes: Seq<SceneDefinition>, scene: SceneDefinition, j: int)
    ensures
        all_errors(choices_part(scenes, scene, j)),
    decreases j,
{
    if j > 0 {
        lemma_choices_part_errors(scenes, scene, j - 1);
    }
}

proof fn lemma_scenes_part_errors(scenes: Seq<SceneDefinition>, k: int)
    ensures
        all_errors(scenes_part(scenes, k)),
    decreases k,
{
    if k > 0 {
        lemma_scenes_part_errors(scenes, k - 1);
        let scene = scenes[k - 1];
        lemma_choices_part_errors(scenes, scene, scene.choices@.len() as int);
    }
}

/// Every problem that validation reports is an error.
pub proof fn lemma_problems_are_errors(campaign: &LoadedCampaign, separator: char)
    ensures
        all_errors(campaign_problems(campaign, separator)),
{
    let scenes = campaign.scenes@;
    lemma_duplicate_part_errors(scenes, scenes.len() as int);
    lemma_scenes_part_errors(scenes, scenes.len() as int);
}

/// The report of a campaign is determined by its problems alone: any two
/// reports in the report order that hold the campaign's problems, each as
/// often, are the same report, whatever order the problems were found in.
pub proof fn lemma_report_determined(
    campaign: &LoadedCampaign,
    separator: char,
    first: Seq<DiagnosticView>,
    second: Seq<DiagnosticView>,
)
    requires
        diagnostics_sorted(first),
        diagnostics_sorted(second),
        first.to_multiset() == campaign_problems(campaign, separator).to_multiset(),
        second.to_multiset() == campaign_problems(campaign, separator).to_multiset(),
    ensures
        first == second,
{
    broadcast use vstd::seq_lib::group_to_multiset_ensures;
    let problems = campaign_problems(campaign, separator);
    lemma_problems_are_errors(campaign, separator);
    assert forall|i: int| 0 <= i < first.len() implies (#[trigger] first[i]).severity == Severity::Error by {
        vstd::seq_lib::to_multiset_contains(first, first[i]);
        vstd::seq_lib::to_multiset_contains(problems, first[i]);
        assert(first.contains(first[i]));
        let j = choose|j: int| 0 <= j < problems.len() && problems[j] == first[i];
    }
    assert forall|i: int| 0 <= i < second.len() implies (#[trigger] second[i]).severity == Severity::Error by {
        vstd::seq_lib::to_multiset_contains(second, second[i]);
        vstd::seq_lib::to_multiset_contains(problems, second[i]);
        assert(second.contains(second[i]));
        let j = choose|j: int| 0 <= j < problems.len() && problems[j] == second[i];
    }
    lemma_sorted_errors_unique(first, second);
}

/// What validation reads of a choice: its identifier and its target's.
pub open spec fn choice_key(choice: ChoiceDefinition) -> (Seq<char>, Option<Seq<char>>) {
    (
        choice.id@,
        match choice.target {
            Some(t) => Some(t@),
            None => None,
        },
    )
}

/// What validation reads of each choice.
pub open spec fn choice_keys(choices: Seq<ChoiceDefinition>) -> Seq<(Seq<char>, Option<Seq<char>>)> {
    choices.map_values(|c: ChoiceDefinition| choice_key(c))
}

/// What validation reads of a scene: its identifier, whether it is
/// terminal, and what it reads of its choices, in any order.
pub open spec fn scene_key(scene: SceneDefinition) -> (Seq<char>, bool, Multiset<(Seq<char>, Option<Seq<char>>)>) {
    (scene.id@, scene.terminal, choice_keys(scene.choices@).to_multiset())
}

/// What validation reads of each scene.
pub open spec fn scene_keys(scenes: Seq<SceneDefinition>) -> Seq<(Seq<char>, bool, Multiset<(Seq<char>, Option<Seq<char>>)>)> {
    scenes.map_values(|s: SceneDefinition| scene_key(s))
}

/// The identifiers of the scenes.
pub open spec fn scene_ids(scenes: Seq<SceneDefinition>) -> Seq<Seq<char>> {
    scenes.map_values(|s: SceneDefinition| s.id@)
}

/// The diagnostic for a repeated choice identifier, as a multiset.
pub open spec fn repeated_choice_problem(scene: Seq<char>) -> spec_fn(Seq<char>) -> Multiset<DiagnosticView> {
    |choice: Seq<char>| Multiset::singleton(duplicate_choice_diagnostic(scene, choice))
}

/// The diagnostics of one choice other than a repeated identifier, for a
/// scene in a campaign whose scene identifiers are `known`.
pub open spec fn choice_problems(known: Multiset<Seq<char>>, scene: Seq<char>, terminal: bool) -> spec_fn(
    (Seq<char>, Option<Seq<char>>),
) -> Multiset<DiagnosticView> {
    |key: (Seq<char>, Option<Seq<char>>)|
        (if !terminal && key.1 is None {
            Multiset::singleton(choice_without_target_diagnostic(scene, key.0))
        } else {
            Multiset::empty()
        }).add(
            match key.1 {
                Some(t) => if known.count(t) == 0 {
                    Multiset::singleton(missing_target_diagnostic(scene, key.0, t))
                } else {
                    Multiset::empty()
                },
                None => Multiset::empty(),
            },
        )
}

/// The diagnostics of a scene from what validation reads of it, in a
/// campaign whose scene identifiers are `known`.
pub open spec fn scene_problems(known: Multiset<Seq<char>>) -> spec_fn(
    (Seq<char>, bool, Multiset<(Seq<char>, Option<Seq<char>>)>),
) -> Multiset<DiagnosticView> {
    |key: (Seq<char>, bool, Multiset<(Seq<char>, Option<Seq<char>>)>)|
        {
            let keys = choose|ks: Seq<(Seq<char>, Option<Seq<char>>)>| ks.to_multiset() == key.2;
            sum_map(
                repeats(keys.map_values(|k: (Seq<char>, Option<Seq<char>>)| k.0)),
                repeated_choice_problem(key.0),
            ).add(sum_map(keys, choice_problems(known, key.0, key.1))).add(
                if !key.1 && key.2.len() == 0 {
                    Multiset::singleton(no_choices_diagnostic(key.0))
                } else {
                    Multiset::empty()
                },
            )
        }
}

/// The duplicate-identifier diagnostic for an identifier that the scenes,
/// whose identifiers are `known`, share.
pub open spec fn duplicate_problem(known: Multiset<Seq<char>>) -> spec_fn(Seq<char>) -> Multiset<DiagnosticView> {
    |id: Seq<char>|
        if known.count(id) > 1 {
            Multiset::singleton(duplicate_scene_diagnostic(id, known.count(id)))
        } else {
            Multiset::empty()
        }
}

proof fn lemma_has_scene_known(scenes: Seq<SceneDefinition>, id: Seq<char>)
    ensures
        has_scene(scenes, id) <==> scene_ids(scenes).to_multiset().count(id) > 0,
{
    broadcast use vstd::seq_lib::group_to_multiset_ensures;
    vstd::seq_lib::to_multiset_contains(scene_ids(scenes), id);
    if has_scene(scenes, id) {
        let k = choose|k: int| 0 <= k < scenes.len() && (#[trigger] scenes[k]).id@ == id;
        assert(scene_ids(scenes)[k] == id);
    }
    if scene_ids(scenes).contains(id) {
        let k = choose|k: int| 0 <= k < scene_ids(scenes).len() && scene_ids(scenes)[k] == id;
        assert(scenes[k].id@ == id);
    }
}

proof fn lemma_scene_count_known(scenes: Seq<SceneDefinition>, id: Seq<char>, k: int)
    requires
        0 <= k <= scenes.len(),
    ensures
        scene_count(scenes, id, k) == scene_ids(scenes).take(k).to_multiset().count(id),
    decreases k,
{
    broadcast use vstd::seq_lib::group_to_multiset_ensures;
    if k == 0 {
        assert(scene_ids(scenes).take(0) =~= Seq::<Seq<char>>::empty());
    } else {
        lemma_scene_count_known(scenes, id, k - 1);
        assert(scene_ids(scenes).take(k) =~= scene_ids(scenes).take(k - 1).push(scenes[k - 1].id@));
        vstd::seq_lib::to_multiset_build(scene_ids(scenes).take(k - 1), scenes[k - 1].id@);
    }
}

proof fn lemma_duplicate_part_sum(scenes: Seq<SceneDefinition>, k: int)
    requires
        0 <= k <= scenes.len(),
    ensures
        duplicate_scene_part(scenes, k).to_multiset() == sum_map(
            firsts(scene_ids(scenes).take(k)),
            duplicate_problem(scene_ids(scenes).to_multiset()),
        ),
    decreases k,
{
    broadcast use vstd::seq_lib::group_to_multiset_ensures;
    let ids = scene_ids(scenes);
    let f = duplicate_problem(ids.to_multiset());
    if k == 0 {
        assert(ids.take(0) =~= Seq::<Seq<char>>::empty());
        assert(duplicate_scene_part(scenes, 0).to_multiset() =~= Multiset::empty());
    } else {
        lemma_duplicate_part_sum(scenes, k - 1);
        let id = scenes[k - 1].id@;
        let before = ids.take(k - 1);
        assert(ids.take(k).drop_last() =~= before);
        assert(ids.take(k).last() == id);
        lemma_scene_count_known(scenes, id, scenes.len() as int);
        assert(ids.take(scenes.len() as int) =~= ids);
        assert(first_with_id(scenes, k - 1) <==> !before.contains(id)) by {
            if !first_with_id(scenes, k - 1) {
                let j = choose|j: int| 0 <= j < k - 1 && (#[trigger] scenes[j]).id@ == scenes[k - 1].id@;
                assert(before[j] == id);
            }
            if before.contains(id) {
                let j = choose|j: int| 0 <= j < before.len() && before[j] == id;
                assert(scenes[j].id@ == id);
            }
        }
        let part = if first_with_id(scenes, k - 1) && scene_count(scenes, id, scenes.len() as int) > 1 {
            seq![duplicate_scene_diagnostic(id, scene_count(scenes, id, scenes.len() as int))]
        } else {
            seq![]
        };
        vstd::seq_lib::lemma_multiset_commutative(duplicate_scene_part(scenes, k - 1), part);
        let added = if before.contains(id) { seq![] } else { seq![id] };
        lemma_sum_map_concat(firsts(before), added, f);
        assert(sum_map(seq![id], f) == Multiset::<DiagnosticView>::empty().add(f(id))) by {
            assert(seq![id].drop_last() =~= Seq::<Seq<char>>::empty());
        }
        assert(sum_map(Seq::<Seq<char>>::empty(), f) == Multiset::<DiagnosticView>::empty());
        assert(Seq::<DiagnosticView>::empty().to_multiset() =~= Multiset::empty());
        assert(seq![duplicate_scene_diagnostic(id, scene_count(scenes, id, scenes.len() as int))].to_multiset()
            =~= Multiset::singleton(duplicate_scene_diagnostic(id, scene_count(scenes, id, scenes.len() as int)))) by {
            let d = duplicate_scene_diagnostic(id, scene_count(scenes, id, scenes.len() as int));
            vstd::seq_lib::to_multiset_build(Seq::<DiagnosticView>::empty(), d);
            assert(Seq::<DiagnosticView>::empty().push(d) =~= seq![d]);
        }
        assert(duplicate_scene_part(scenes, k).to_multiset() =~= sum_map(firsts(ids.take(k)), f));
    }
}

proof fn lemma_singleton_seq(d: DiagnosticView)
    ensures
        seq![d].to_multiset() == Multiset::singleton(d),
        Seq::<DiagnosticView>::empty().to_multiset() == Multiset::<DiagnosticView>::empty(),
{
    broadcast use vstd::seq_lib::group_to_multiset_ensures;
    vstd::seq_lib::to_multiset_build(Seq::<DiagnosticView>::empty(), d);
    assert(Seq::<DiagnosticView>::empty().push(d) =~= seq![d]);
    assert(Seq::<DiagnosticView>::empty().to_multiset() =~= Multiset::empty());
}

proof fn lemma_choices_part_sum(scenes: Seq<SceneDefinition>, scene: SceneDefinition, j: int)
    requires
        0 <= j <= scene.choices@.len(),
    ensures
        ({
            let keys = choice_keys(scene.choices@);
            let ids = keys.map_values(|k: (Seq<char>, Option<Seq<char>>)| k.0);
            choices_part(scenes, scene, j).to_multiset() == sum_map(
                repeats(ids.take(j)),
                repeated_choice_problem(scene.id@),
            ).add(sum_map(keys.take(j), choice_problems(scene_ids(scenes).to_multiset(), scene.id@, scene.terminal)))
        }),
    decreases j,
{
    broadcast use vstd::seq_lib::group_to_multiset_ensures;
    let keys = choice_keys(scene.choices@);
    let ids = keys.map_values(|k: (Seq<char>, Option<Seq<char>>)| k.0);
    let known = scene_ids(scenes).to_multiset();
    let dup = repeated_choice_problem(scene.id@);
    let extra = choice_problems(known, scene.id@, scene.terminal);
    if j == 0 {
        assert(ids.take(0) =~= Seq::<Seq<char>>::empty());
        assert(keys.take(0) =~= Seq::<(Seq<char>, Option<Seq<char>>)>::empty());
        assert(choices_part(scenes, scene, 0).to_multiset() =~= Multiset::empty());
        assert(sum_map(repeats(ids.take(0)), dup).add(sum_map(keys.take(0), extra)) =~= Multiset::empty());
    } else {
        lemma_choices_part_sum(scenes, scene, j - 1);
        let choices = scene.choices@;
        let choice = choices[j - 1];
        let key = keys[j - 1];
        assert(key == choice_key(choice));
        assert(ids[j - 1] == choice.id@);
        assert(ids.take(j).drop_last() =~= ids.take(j - 1));
        assert(ids.take(j).last() == choice.id@);
        assert(keys.take(j).drop_last() =~= keys.take(j - 1));
        assert(keys.take(j).last() == key);
        assert(repeats_choice_id(choices, j - 1) <==> ids.take(j - 1).contains(choice.id@)) by {
            if repeats_choice_id(choices, j - 1) {
                let m = choose|m: int| 0 <= m < j - 1 && (#[trigger] choices[m]).id@ == choices[j - 1].id@;
                assert(ids.take(j - 1)[m] == choice.id@);
            }
            if ids.take(j - 1).contains(choice.id@) {
                let prefix = ids.take(j - 1);
                let m = choose|m: int| 0 <= m < prefix.len() && #[trigger] prefix[m] == choice.id@;
                assert(choices[m].id@ == choice.id@);
            }
        }
        match choice.target {
            Some(t) => lemma_has_scene_known(scenes, t@),
            None => {},
        }
        let first = if repeats_choice_id(choices, j - 1) {
            seq![duplicate_choice_diagnostic(scene.id@, choice.id@)]
        } else {
            seq![]
        };
        let second = if !scene.terminal && choice.target is None {
            seq![choice_without_target_diagnostic(scene.id@, choice.id@)]
        } else {
            seq![]
        };
        let third = match choice.target {
            Some(t) => if !has_scene(scenes, t@) {
                seq![missing_target_diagnostic(scene.id@, choice.id@, t@)]
            } else {
                seq![]
            },
            None => seq![],
        };
        assert(choice_diagnostics(scenes, scene, j - 1) == first + second + third);
        vstd::seq_lib::lemma_multiset_commutative(first + second, third);
        vstd::seq_lib::lemma_multiset_commutative(first, second);
        vstd::seq_lib::lemma_multiset_commutative(choices_part(scenes, scene, j - 1), first + second + third);
        lemma_singleton_seq(duplicate_choice_diagnostic(scene.id@, choice.id@));
        lemma_singleton_seq(choice_without_target_diagnostic(scene.id@, choice.id@));
        match choice.target {
            Some(t) => lemma_singleton_seq(missing_target_diagnostic(scene.id@, choice.id@, t@)),
            None => {},
        }
        let added = if ids.take(j - 1).contains(choice.id@) { seq![choice.id@] } else { seq![] };
        lemma_sum_map_concat(repeats(ids.take(j - 1)), added, dup);
        assert(sum_map(seq![choice.id@], dup) == Multiset::<DiagnosticView>::empty().add(dup(choice.id@))) by {
            let one = seq![choice.id@];
            assert(one.drop_last() =~= Seq::<Seq<char>>::empty());
            assert(sum_map(one.drop_last(), dup) == Multiset::<DiagnosticView>::empty());
            assert(one.last() == choice.id@);
        }
        assert(sum_map(Seq::<Seq<char>>::empty(), dup) == Multiset::<DiagnosticView>::empty());
        assert(choices_part(scenes, scene, j).to_multiset() =~= sum_map(repeats(ids.take(j)), dup).add(
            sum_map(keys.take(j), extra),
        ));
    }
}

proof fn lemma_scene_diagnostics_key(scenes: Seq<SceneDefinition>, scene: SceneDefinition)
    ensures
        scene_diagnostics(scenes, scene).to_multiset() == scene_problems(scene_ids(scenes).to_multiset())(
            scene_key(scene),
        ),
{
    broadcast use vstd::seq_lib::group_to_multiset_ensures;
    let key = scene_key(scene);
    let known = scene_ids(scenes).to_multiset();
    let mine = choice_keys(scene.choices@);
    let n = scene.choices@.len() as int;
    let first_of = |k: (Seq<char>, Option<Seq<char>>)| k.0;
    lemma_choices_part_sum(scenes, scene, n);
    assert(mine.take(n) =~= mine);
    assert(mine.map_values(first_of).take(n) =~= mine.map_values(first_of));
    assert(mine.to_multiset() == key.2);
    let keys = choose|ks: Seq<(Seq<char>, Option<Seq<char>>)>| ks.to_multiset() == key.2;
    assert(keys.to_multiset() == mine.to_multiset());
    lemma_sum_map_permutation(keys, mine, choice_problems(known, key.0, key.1));
    lemma_map_values_permutation(keys, mine, first_of);
    lemma_firsts_repeats_permutation(keys.map_values(first_of), mine.map_values(first_of));
    lemma_sum_map_permutation(
        repeats(keys.map_values(first_of)),
        repeats(mine.map_values(first_of)),
        repeated_choice_problem(key.0),
    );
    vstd::seq_lib::to_multiset_len(mine);
    let last = if !scene.terminal && scene.choices@.len() == 0 {
        seq![no_choices_diagnostic(scene.id@)]
    } else {
        seq![]
    };
    lemma_singleton_seq(no_choices_diagnostic(scene.id@));
    vstd::seq_lib::lemma_multiset_commutative(choices_part(scenes, scene, n), last);
    assert(scene_diagnostics(scenes, scene).to_multiset() =~= scene_problems(known)(key));
}

proof fn lemma_scenes_part_sum(scenes: Seq<SceneDefinition>, k: int)
    requires
        0 <= k <= scenes.len(),
    ensures
        scenes_part(scenes, k).to_multiset() == sum_map(
            scene_keys(scenes).take(k),
            scene_problems(scene_ids(scenes).to_multiset()),
        ),
    decreases k,
{
    broadcast use vstd::seq_lib::group_to_multiset_ensures;
    let keys = scene_keys(scenes);
    let f = scene_problems(scene_ids(scenes).to_multiset());
    if k == 0 {
        assert(keys.take(0) =~= Seq::<(Seq<char>, bool, Multiset<(Seq<char>, Option<Seq<char>>)>)>::empty());
        assert(scenes_part(scenes, 0).to_multiset() =~= Multiset::empty());
    } else {
        lemma_scenes_part_sum(scenes, k - 1);
        lemma_scene_diagnostics_key(scenes, scenes[k - 1]);
        assert(keys.take(k).drop_last() =~= keys.take(k - 1));
        assert(keys.take(k).last() == scene_key(scenes[k - 1]));
        vstd::seq_lib::lemma_multiset_commutative(
            scenes_part(scenes, k - 1),
            scene_diagnostics(scenes, scenes[k - 1]),
        );
    }
}

/// Validation does not depend on the order of the scenes, nor on the order
/// of each scene's choices: two campaigns with the same root and manifest
/// values whose scenes are the same up to order (as far as validation reads
/// them: identifier, terminal flag, and each choice's identifier and target,
/// in any order) have the same problems, each as often.
pub proof fn lemma_problems_ignore_order(first: &LoadedCampaign, second: &LoadedCampaign, separator: char)
    requires
        first.root@ == second.root@,
        first.manifest.schema_version == second.manifest.schema_version,
        first.manifest.entry_scene@ == second.manifest.entry_scene@,
        scene_keys(first.scenes@).to_multiset() == scene_keys(second.scenes@).to_multiset(),
    ensures
        campaign_problems(first, separator).to_multiset() == campaign_problems(second, separator).to_multiset(),
{
    broadcast use vstd::seq_lib::group_to_multiset_ensures;
    let a = first.scenes@;
    let b = second.scenes@;
    let id_of = |k: (Seq<char>, bool, Multiset<(Seq<char>, Option<Seq<char>>)>)| k.0;
    assert(scene_ids(a) =~= scene_keys(a).map_values(id_of));
    assert(scene_ids(b) =~= scene_keys(b).map_values(id_of));
    lemma_map_values_permutation(scene_keys(a), scene_keys(b), id_of);
    let known = scene_ids(a).to_multiset();
    assert(known == scene_ids(b).to_multiset());
    lemma_firsts_repeats_permutation(scene_ids(a), scene_ids(b));
    lemma_duplicate_part_sum(a, a.len() as int);
    lemma_duplicate_part_sum(b, b.len() as int);
    assert(scene_ids(a).take(a.len() as int) =~= scene_ids(a));
    assert(scene_ids(b).take(b.len() as int) =~= scene_ids(b));
    lemma_sum_map_permutation(firsts(scene_ids(a)), firsts(scene_ids(b)), duplicate_problem(known));
    lemma_scenes_part_sum(a, a.len() as int);
    lemma_scenes_part_sum(b, b.len() as int);
    assert(scene_keys(a).take(a.len() as int) =~= scene_keys(a));
    assert(scene_keys(b).take(b.len() as int) =~= scene_keys(b));
    lemma_sum_map_permutation(scene_keys(a), scene_keys(b), scene_problems(known));
    lemma_has_scene_known(a, first.manifest.entry_scene@);
    lemma_has_scene_known(b, second.manifest.entry_scene@);
    let schema_a = if first.manifest.schema_version != 1 {
        seq![unsupported_schema_diagnostic(first.root@, first.manifest.schema_version, separator)]
    } else {
        seq![]
    };
    let entry_a = if !has_scene(a, first.manifest.entry_scene@) {
        seq![missing_entry_diagnostic(first.root@, first.manifest.entry_scene@, separator)]
    } else {
        seq![]
    };
    let schema_b = if second.manifest.schema_version != 1 {
        seq![unsupported_schema_diagnostic(second.root@, second.manifest.schema_version, separator)]
    } else {
        seq![]
    };
    let entry_b = if !has_scene(b, second.manifest.entry_scene@) {
        seq![missing_entry_diagnostic(second.root@, second.manifest.entry_scene@, separator)]
    } else {
        seq![]
    };
    assert(schema_a == schema_b);
    assert(entry_a == entry_b);
    let dup_a = duplicate_scene_part(a, a.len() as int);
    let dup_b = duplicate_scene_part(b, b.len() as int);
    let scenes_a = scenes_part(a, a.len() as int);
    let scenes_b = scenes_part(b, b.len() as int);
    vstd::seq_lib::lemma_multiset_commutative(schema_a, dup_a);
    vstd::seq_lib::lemma_multiset_commutative(schema_a + dup_a, entry_a);
    vstd::seq_lib::lemma_multiset_commutative(schema_a + dup_a + entry_a, scenes_a);
    vstd::seq_lib::lemma_multiset_commutative(schema_b, dup_b);
    vstd::seq_lib::lemma_multiset_commutative(schema_b + dup_b, entry_b);
    vstd::seq_lib::lemma_multiset_commutative(schema_b + dup_b + entry_b, scenes_b);
    assert(campaign_problems(first, separator) == schema_a + dup_a + entry_a + scenes_a);
    assert(campaign_problems(second, separator) == schema_b + dup_b + entry_b + scenes_b);
}

/// The report of `validate_campaign` does not depend on the order of the
/// scenes nor on the order of each scene's choices: for two campaigns that
/// are the same up to that order, the reports it promises are equal.
pub proof fn lemma_report_ignores_order(
    first: &LoadedCampaign,
    second: &LoadedCampaign,
    separator: char,
    first_report: Seq<DiagnosticView>,
    second_report: Seq<DiagnosticView>,
)
    requires
        first.root@ == second.root@,
        first.manifest.schema_version == second.manifest.schema_version,
        first.manifest.entry_scene@ == second.manifest.entry_scene@,
        scene_keys(first.scenes@).to_multiset() == scene_keys(second.scenes@).to_multiset(),
        diagnostics_sorted(first_report),
        diagnostics_sorted(second_report),
        first_report.to_multiset() == campaign_problems(first, separator).to_multiset(),
        second_report.to_multiset() == campaign_problems(second, separator).to_multiset(),
    ensures
        first_report == second_report,
{
    lemma_problems_ignore_order(first, second, separator);
    lemma_report_determined(first, separator, first_report, second_report);
}

proof fn lemma_concat_contains(a: Seq<DiagnosticView>, b: Seq<DiagnosticView>, d: DiagnosticView)
    ensures
        a.contains(d) || b.contains(d) ==> (a + b).contains(d),
{
    if a.contains(d) {
        let i = choose|i: int| 0 <= i < a.len() && a[i] == d;
        assert((a + b)[i] == d);
    } else if b.contains(d) {
        let i = choose|i: int| 0 <= i < b.len() && b[i] == d;
        assert((a + b)[a.len() + i] == d);
    }
}

proof fn lemma_choices_part_contains(
    scenes: Seq<SceneDefinition>,
    scene: SceneDefinition,
    count: int,
    j: int,
    d: DiagnosticView,
)
    requires
        0 <= j < count,
        choice_diagnostics(scenes, scene, j).contains(d),
    ensures
        choices_part(scenes, scene, count).contains(d),
    decreases count,
{
    if j < count - 1 {
        lemma_choices_part_contains(scenes, scene, count - 1, j, d);
    }
    lemma_concat_contains(choices_part(scenes, scene, count - 1), choice_diagnostics(scenes, scene, count - 1), d);
}

proof fn lemma_scenes_part_contains(scenes: Seq<SceneDefinition>, count: int, k: int, d: DiagnosticView)
    requires
        0 <= k < count,
        scene_diagnostics(scenes, scenes[k]).contains(d),
    ensures
        scenes_part(scenes, count).contains(d),
    decreases count,
{
    if k < count - 1 {
        lemma_scenes_part_contains(scenes, count - 1, k, d);
    }
    lemma_concat_contains(scenes_part(scenes, count - 1), scene_diagnostics(scenes, scenes[count - 1]), d);
}

proof fn lemma_scene_problem_reported(campaign: &LoadedCampaign, separator: char, k: int, d: DiagnosticView)
    requires
        0 <= k < campaign.scenes@.len(),
        scene_diagnostics(campaign.scenes@, campaign.scenes@[k]).contains(d),
    ensures
        campaign_problems(campaign, separator).contains(d),
{
    let scenes = campaign.scenes@;
    lemma_scenes_part_contains(scenes, scenes.len() as int, k, d);
    let head = (if campaign.manifest.schema_version != 1 {
        seq![unsupported_schema_diagnostic(campaign.root@, campaign.manifest.schema_version, separator)]
    } else {
        seq![]
    }) + duplicate_scene_part(scenes, scenes.len() as int) + (if !has_scene(
        scenes,
        campaign.manifest.entry_scene@,
    ) {
        seq![missing_entry_diagnostic(campaign.root@, campaign.manifest.entry_scene@, separator)]
    } else {
        seq![]
    });
    lemma_concat_contains(head, scenes_part(scenes, scenes.len() as int), d);
    assert(campaign_problems(campaign, separator) == head + scenes_part(scenes, scenes.len() as int));
}

proof fn lemma_choice_problem_reported(campaign: &LoadedCampaign, separator: char, k: int, j: int, d: DiagnosticView)
    requires
        0 <= k < campaign.scenes@.len(),
        0 <= j < campaign.scenes@[k].choices@.len(),
        choice_diagnostics(campaign.scenes@, campaign.scenes@[k], j).contains(d),
    ensures
        campaign_problems(campaign, separator).contains(d),
{
    let scenes = campaign.scenes@;
    let scene = scenes[k];
    lemma_choices_part_contains(scenes, scene, scene.choices@.len() as int, j, d);
    lemma_concat_contains(
        choices_part(scenes, scene, scene.choices@.len() as int),
        if !scene.terminal && scene.choices@.len() == 0 {
            seq![no_choices_diagnostic(scene.id@)]
        } else {
            seq![]
        },
        d,
    );
    lemma_scene_problem_reported(campaign, separator, k, d);
}

/// Every choice whose target names no scene of the campaign is reported,
/// whether its scene is terminal or not: the problems hold the error
/// `scene.missing-target` for that scene, choice and target.
pub proof fn lemma_missing_targets_reported(
    campaign: &LoadedCampaign,
    separator: char,
    k: int,
    j: int,
    target: ContentId,
)
    requires
        0 <= k < campaign.scenes@.len(),
        0 <= j < campaign.scenes@[k].choices@.len(),
        campaign.scenes@[k].choices@[j].target == Some(target),
        forall|m: int| 0 <= m < campaign.scenes@.len() ==> (#[trigger] campaign.scenes@[m]).id@ != target@,
    ensures
        campaign_problems(campaign, separator).contains(
            DiagnosticView {
                severity: Severity::Error,
                code: "scene.missing-target"@,
                message: "choice `"@ + campaign.scenes@[k].choices@[j].id@ + "` in scene `"@
                    + campaign.scenes@[k].id@ + "` targets missing scene `"@ + target@ + "`"@,
                path: None,
            },
        ),
{
    let scenes = campaign.scenes@;
    let scene = scenes[k];
    let choice = scene.choices@[j];
    let d = missing_target_diagnostic(scene.id@, choice.id@, target@);
    assert(!has_scene(scenes, target@));
    let first = (if repeats_choice_id(scene.choices@, j) {
        seq![duplicate_choice_diagnostic(scene.id@, choice.id@)]
    } else {
        seq![]
    }) + (if !scene.terminal && choice.target is None {
        seq![choice_without_target_diagnostic(scene.id@, choice.id@)]
    } else {
        seq![]
    });
    assert(choice_diagnostics(scenes, scene, j) == first + seq![d]);
    assert(seq![d][0] == d);
    lemma_concat_contains(first, seq![d], d);
    lemma_choice_problem_reported(campaign, separator, k, j, d);
}

/// Every choice without a target in a nonterminal scene is reported: the
/// problems hold the error `scene.choice-missing-target` for that scene and
/// choice.
pub proof fn lemma_choices_without_target_reported(campaign: &LoadedCampaign, separator: char, k: int, j: int)
    requires
        0 <= k < campaign.scenes@.len(),
        0 <= j < campaign.scenes@[k].choices@.len(),
        !campaign.scenes@[k].terminal,
        campaign.scenes@[k].choices@[j].target is None,
    ensures
        campaign_problems(campaign, separator).contains(
            DiagnosticView {
                severity: Severity::Error,
                code: "scene.choice-missing-target"@,
                message: "choice `"@ + campaign.scenes@[k].choices@[j].id@ + "` in scene `"@
                    + campaign.scenes@[k].id@ + "` has no target"@,
                path: None,
            },
        ),
{
    let scenes = campaign.scenes@;
    let scene = scenes[k];
    let choice = scene.choices@[j];
    let d = choice_without_target_diagnostic(scene.id@, choice.id@);
    let first = if repeats_choice_id(scene.choices@, j) {
        seq![duplicate_choice_diagnostic(scene.id@, choice.id@)]
    } else {
        seq![]
    };
    assert(choice_diagnostics(scenes, scene, j) =~= first + seq![d]);
    assert(seq![d][0] == d);
    lemma_concat_contains(first, seq![d], d);
    lemma_choice_problem_reported(campaign, separator, k, j, d);
}

/// Every choice that repeats the identifier of an earlier choice of its
/// scene is reported: the problems hold the error
/// `scene.duplicate-choice-id` for that scene and identifier.
pub proof fn lemma_repeated_choices_reported(campaign: &LoadedCampaign, separator: char, k: int, i: int, j: int)
    requires
        0 <= k < campaign.scenes@.len(),
        0 <= i < j < campaign.scenes@[k].choices@.len(),
        campaign.scenes@[k].choices@[i].id@ == campaign.scenes@[k].choices@[j].id@,
    ensures
        campaign_problems(campaign, separator).contains(
            DiagnosticView {
                severity: Severity::Error,
                code: "scene.duplicate-choice-id"@,
                message: "scene `"@ + campaign.scenes@[k].id@ + "` repeats choice ID `"@
                    + campaign.scenes@[k].choices@[j].id@ + "`"@,
                path: None,
            },
        ),
{
    let scenes = campaign.scenes@;
    let scene = scenes[k];
    let choice = scene.choices@[j];
    let d = duplicate_choice_diagnostic(scene.id@, choice.id@);
    assert(repeats_choice_id(scene.choices@, j));
    let rest = (if !scene.terminal && choice.target is None {
        seq![choice_without_target_diagnostic(scene.id@, choice.id@)]
    } else {
        seq![]
    }) + match choice.target {
        Some(t) => if !has_scene(scenes, t@) {
            seq![missing_target_diagnostic(scene.id@, choice.id@, t@)]
        } else {
            seq![]
        },
        None => seq![],
    };
    assert(choice_diagnostics(scenes, scene, j) =~= seq![d] + rest);
    assert(seq![d][0] == d);
    lemma_concat_contains(seq![d], rest, d);
    lemma_choice_problem_reported(campaign, separator, k, j, d);
}

/// Every nonterminal scene without choices is reported: the problems hold
/// the error `scene.no-choices` for that scene.
pub proof fn lemma_scenes_without_choices_reported(campaign: &LoadedCampaign, separator: char, k: int)
    requires
        0 <= k < campaign.scenes@.len(),
        !campaign.scenes@[k].terminal,
        campaign.scenes@[k].choices@.len() == 0,
    ensures
        campaign_problems(campaign, separator).contains(
            DiagnosticView {
                severity: Severity::Error,
                code: "scene.no-choices"@,
                message: "nonterminal scene `"@ + campaign.scenes@[k].id@ + "` has no choices"@,
                path: None,
            },
        ),
{
    let scenes = campaign.scenes@;
    let scene = scenes[k];
    let d = no_choices_diagnostic(scene.id@);
    assert(choices_part(scenes, scene, 0) =~= Seq::<DiagnosticView>::empty());
    assert(scene_diagnostics(scenes, scene) =~= seq![d]);
    assert(seq![d][0] == d);
    lemma_scene_problem_reported(campaign, separator, k, d);
}

/// A manifest whose schema version is not the supported one is reported
/// first: the problems start with the error `manifest.unsupported-schema`
/// naming the version, at the manifest's path under the root.
pub proof fn lemma_unsupported_schema_reported(campaign: &LoadedCampaign, separator: char)
    requires
        campaign.manifest.schema_version != 1,
    ensures
        campaign_problems(campaign, separator).len() > 0,
        campaign_problems(campaign, separator)[0] == (DiagnosticView {
            severity: Severity::Error,
            code: "manifest.unsupported-schema"@,
            message: "schema version "@ + decimal(campaign.manifest.schema_version as nat) + " is not supported"@,
            path: Some(join_path(campaign.root@, "campaign.toml"@, separator)),
        }),
{
}

/// An entry scene that no scene has is reported: the problems hold the
/// error `manifest.missing-entry-scene` naming it, at the manifest's path
/// under the root.
pub proof fn lemma_missing_entry_reported(campaign: &LoadedCampaign, separator: char)
    requires
        forall|m: int|
            0 <= m < campaign.scenes@.len() ==> (#[trigger] campaign.scenes@[m]).id@
                != campaign.manifest.entry_scene@,
    ensures
        campaign_problems(campaign, separator).contains(
            DiagnosticView {
                severity: Severity::Error,
                code: "manifest.missing-entry-scene"@,
                message: "entry scene `"@ + campaign.manifest.entry_scene@ + "` does not exist"@,
                path: Some(join_path(campaign.root@, "campaign.toml"@, separator)),
            },
        ),
{
    let scenes = campaign.scenes@;
    let d = missing_entry_diagnostic(campaign.root@, campaign.manifest.entry_scene@, separator);
    assert(!has_scene(scenes, campaign.manifest.entry_scene@));
    let schema = if campaign.manifest.schema_version != 1 {
        seq![unsupported_schema_diagnostic(campaign.root@, campaign.manifest.schema_version, separator)]
    } else {
        seq![]
    };
    let before = schema + duplicate_scene_part(scenes, scenes.len() as int);
    assert(seq![d][0] == d);
    lemma_concat_contains(before, seq![d], d);
    lemma_concat_contains(before + seq![d], scenes_part(scenes, scenes.len() as int), d);
    assert(campaign_problems(campaign, separator) == before + seq![d] + scenes_part(scenes, scenes.len() as int));
}

proof fn lemma_scene_count_filter(scenes: Seq<SceneDefinition>, id: Seq<char>, k: int)
    requires
        0 <= k <= scenes.len(),
    ensures
        scene_count(scenes, id, k) == scenes.take(k).filter(|s: SceneDefinition| s.id@ == id).len(),
    decreases k,
{
    reveal(Seq::filter);
    if k == 0 {
        assert(scenes.take(0) =~= Seq::<SceneDefinition>::empty());
    } else {
        lemma_scene_count_filter(scenes, id, k - 1);
        assert(scenes.take(k).drop_last() =~= scenes.take(k - 1));
    }
}

proof fn lemma_first_with(scenes: Seq<SceneDefinition>, k: int) -> (f: int)
    requires
        0 <= k < scenes.len(),
    ensures
        0 <= f <= k,
        scenes[f].id@ == scenes[k].id@,
        first_with_id(scenes, f),
    decreases k,
{
    if exists|j: int| 0 <= j < k && (#[trigger] scenes[j]).id@ == scenes[k].id@ {
        let j = choose|j: int| 0 <= j < k && (#[trigger] scenes[j]).id@ == scenes[k].id@;
        lemma_first_with(scenes, j)
    } else {
        k
    }
}

proof fn lemma_duplicate_part_contains(scenes: Seq<SceneDefinition>, count: int, f: int, d: DiagnosticView)
    requires
        0 <= f < count,
        duplicate_scene_part(scenes, f + 1).contains(d),
    ensures
        duplicate_scene_part(scenes, count).contains(d),
    decreases count,
{
    if f < count - 1 {
        lemma_duplicate_part_contains(scenes, count - 1, f, d);
        let id = scenes[count - 1].id@;
        let total = scene_count(scenes, id, scenes.len() as int);
        lemma_concat_contains(
            duplicate_scene_part(scenes, count - 1),
            if first_with_id(scenes, count - 1) && total > 1 {
                seq![duplicate_scene_diagnostic(id, total)]
            } else {
                seq![]
            },
            d,
        );
    }
}

/// Every scene identifier that more than one scene has is reported: the
/// problems hold the error `scene.duplicate-id` naming it and the number of
/// scenes that have it.
pub proof fn lemma_duplicate_scenes_reported(campaign: &LoadedCampaign, separator: char, k: int)
    requires
        0 <= k < campaign.scenes@.len(),
        campaign.scenes@.filter(|s: SceneDefinition| s.id@ == campaign.scenes@[k].id@).len() > 1,
    ensures
        campaign_problems(campaign, separator).contains(
            DiagnosticView {
                severity: Severity::Error,
                code: "scene.duplicate-id"@,
                message: "scene ID `"@ + campaign.scenes@[k].id@ + "` appears "@ + decimal(
                    campaign.scenes@.filter(|s: SceneDefinition| s.id@ == campaign.scenes@[k].id@).len(),
                ) + " times"@,
                path: None,
            },
        ),
{
    let scenes = campaign.scenes@;
    let id = scenes[k].id@;
    let n = scenes.len() as int;
    lemma_scene_count_filter(scenes, id, n);
    assert(scenes.take(n) =~= scenes);
    assert((|s: SceneDefinition| s.id@ == id) =~= (|s: SceneDefinition| s.id@ == campaign.scenes@[k].id@));
    let total = scene_count(scenes, id, n);
    assert(total > 1);
    let d = duplicate_scene_diagnostic(id, total);
    let f = lemma_first_with(scenes, k);
    assert(scenes[f].id@ == id);
    assert(duplicate_scene_part(scenes, f + 1) == duplicate_scene_part(scenes, f) + seq![d]);
    assert(seq![d][0] == d);
    lemma_concat_contains(duplicate_scene_part(scenes, f), seq![d], d);
    lemma_duplicate_part_contains(scenes, n, f, d);
    let schema = if campaign.manifest.schema_version != 1 {
        seq![unsupported_schema_diagnostic(campaign.root@, campaign.manifest.schema_version, separator)]
    } else {
        seq![]
    };
    let entry = if !has_scene(scenes, campaign.manifest.entry_scene@) {
        seq![missing_entry_diagnostic(campaign.root@, campaign.manifest.entry_scene@, separator)]
    } else {
        seq![]
    };
    lemma_concat_contains(schema, duplicate_scene_part(scenes, n), d);
    lemma_concat_contains(schema + duplicate_scene_part(scenes, n), entry, d);
    lemma_concat_contains(schema + duplicate_scene_part(scenes, n) + entry, scenes_part(scenes, n), d);
    assert(campaign_problems(campaign, separator) == schema + duplicate_scene_part(scenes, n) + entry
        + scenes_part(scenes, n));
}

/// Scene identifiers are unique, each scene's choice identifiers are
/// unique, every target names a scene, and a nonterminal scene has choices,
/// each with a target.
pub open spec fn scenes_sound(scenes: Seq<SceneDefinition>) -> bool {
    &&& forall|a: int, b: int| 0 <= a < b < scenes.len() ==> (#[trigger] scenes[a]).id@ != (#[trigger] scenes[b]).id@
    &&& forall|k: int| 0 <= k < scenes.len() ==> {
        let scene = #[trigger] scenes[k];
        &&& forall|a: int, b: int|
            0 <= a < b < scene.choices@.len() ==> (#[trigger] scene.choices@[a]).id@
                != (#[trigger] scene.choices@[b]).id@
        &&& forall|j: int|
            0 <= j < scene.choices@.len() ==> match (#[trigger] scene.choices@[j]).target {
                Some(t) => exists|m: int| 0 <= m < scenes.len() && (#[trigger] scenes[m]).id@ == t@,
                None => scene.terminal,
            }
        &&& !scene.terminal ==> scene.choices@.len() > 0
    }
}

proof fn lemma_unique_count(scenes: Seq<SceneDefinition>, k: int, count: int)
    requires
        0 <= k < scenes.len(),
        0 <= count <= scenes.len(),
        forall|a: int, b: int| 0 <= a < b < scenes.len() ==> (#[trigger] scenes[a]).id@ != (#[trigger] scenes[b]).id@,
    ensures
        scene_count(scenes, scenes[k].id@, count) == if k < count { 1nat } else { 0nat },
    decreases count,
{
    if count > 0 {
        lemma_unique_count(scenes, k, count - 1);
    }
}

proof fn lemma_sound_duplicate_part(scenes: Seq<SceneDefinition>, count: int)
    requires
        0 <= count <= scenes.len(),
        scenes_sound(scenes),
    ensures
        duplicate_scene_part(scenes, count).len() == 0,
    decreases count,
{
    if count > 0 {
        lemma_sound_duplicate_part(scenes, count - 1);
        lemma_unique_count(scenes, count - 1, scenes.len() as int);
    }
}

proof fn lemma_sound_choices_part(scenes: Seq<SceneDefinition>, k: int, count: int)
    requires
        0 <= k < scenes.len(),
        0 <= count <= scenes[k].choices@.len(),
        scenes_sound(scenes),
    ensures
        choices_part(scenes, scenes[k], count).len() == 0,
    decreases count,
{
    if count > 0 {
        lemma_sound_choices_part(scenes, k, count - 1);
        let scene = scenes[k];
        let j = count - 1;
        let choice = scene.choices@[j];
        assert(!repeats_choice_id(scene.choices@, j)) by {
            if repeats_choice_id(scene.choices@, j) {
                let m = choose|m: int| 0 <= m < j && (#[trigger] scene.choices@[m]).id@ == scene.choices@[j].id@;
                assert(scene.choices@[m].id@ != scene.choices@[j].id@);
            }
        }
        match choice.target {
            Some(t) => {
                let m = choose|m: int| 0 <= m < scenes.len() && (#[trigger] scenes[m]).id@ == t@;
                assert(has_scene(scenes, t@));
            },
            None => {},
        }
        assert(choice_diagnostics(scenes, scene, j).len() == 0);
    }
}

proof fn lemma_sound_scenes_part(scenes: Seq<SceneDefinition>, count: int)
    requires
        0 <= count <= scenes.len(),
        scenes_sound(scenes),
    ensures
        scenes_part(scenes, count).len() == 0,
    decreases count,
{
    if count > 0 {
        lemma_sound_scenes_part(scenes, count - 1);
        lemma_sound_choices_part(scenes, count - 1, scenes[count - 1].choices@.len() as int);
    }
}

/// A campaign without problems has an empty report: when the schema version
/// is the supported one, the entry scene exists, and the scenes are sound
/// (unique identifiers, unique choice identifiers within each scene, every
/// target naming a scene, and every nonterminal scene offering choices,
/// each with a target), nothing is reported.
pub proof fn lemma_sound_campaign_has_no_problems(campaign: &LoadedCampaign, separator: char)
    requires
        campaign.manifest.schema_version == 1,
        exists|m: int|
            0 <= m < campaign.scenes@.len() && (#[trigger] campaign.scenes@[m]).id@ == campaign.manifest.entry_scene@,
        scenes_sound(campaign.scenes@),
    ensures
        campaign_problems(campaign, separator).len() == 0,
{
    let scenes = campaign.scenes@;
    let n = scenes.len() as int;
    lemma_sound_duplicate_part(scenes, n);
    lemma_sound_scenes_part(scenes, n);
    let m = choose|m: int| 0 <= m < scenes.len() && (#[trigger] scenes[m]).id@ == campaign.manifest.entry_scene@;
    assert(has_scene(scenes, campaign.manifest.entry_scene@));
}

/// Whether `root` is a bare drive such as `C:`.
fn drive_root(root: &str) -> (drive: bool)
    ensures
        drive == is_drive_root(root@),
{
    if root.unicode_len() != 2 || root.get_char(1) != ':' {
        return false;
    }
    let letter = root.get_char(0);
    ('a' <= letter && letter <= 'z') || ('A' <= letter && letter <= 'Z')
}

/// The path of the manifest file under `root`, on a platform whose main
/// path separator is `separator`.
fn manifest_path_of(root: &String, separator: char) -> (path: String)
    ensures
        path@ == manifest_path(root@, separator),
{
    let n = root.as_str().unicode_len();
    if n == 0 {
        return "campaign.toml".to_owned();
    }
    let mut path = root.clone();
    let last = root.as_str().get_char(n - 1);
    let drive = separator == '\\' && drive_root(root.as_str());
    if last != '/' && last != separator && !drive {
        push_char(&mut path, separator);
    }
    path.append("campaign.toml");
    proof {
        if last != '/' && last != separator && !drive {
            assert(path@ =~= root@ + seq![separator] + "campaign.toml"@);
        }
    }
    path
}

fn error_with(code: &'static str, message: String, path: Option<String>) -> (d: Diagnostic)
    ensures
        d@ == error_diagnostic(
            code@,
            message@,
            match path { Some(p) => Some(p@), None => None },
        ),
{
    Diagnostic { severity: Severity::Error, code, message, path }
}

fn unsupported_schema(root: &String, version: u32, separator: char) -> (d: Diagnostic)
    ensures
        d@ == unsupported_schema_diagnostic(root@, version, separator),
{
    let mut message = "schema version ".to_owned();
    message.append(decimal_string(version as u64).as_str());
    message.append(" is not supported");
    error_with("manifest.unsupported-schema", message, Some(manifest_path_of(root, separator)))
}

fn duplicate_scene(id: &ContentId, count: usize) -> (d: Diagnostic)
    ensures
        d@ == duplicate_scene_diagnostic(id@, count as nat),
{
    let mut message = "scene ID `".to_owned();
    message.append(id.as_str());
    message.append("` appears ");
    message.append(decimal_string(count as u64).as_str());
    message.append(" times");
    error_with("scene.duplicate-id", message, None)
}

fn missing_entry(root: &String, entry: &ContentId, separator: char) -> (d: Diagnostic)
    ensures
        d@ == missing_entry_diagnostic(root@, entry@, separator),
{
    let mut message = "entry scene `".to_owned();
    message.append(entry.as_str());
    message.append("` does not exist");
    error_with("manifest.missing-entry-scene", message, Some(manifest_path_of(root, separator)))
}

fn duplicate_choice(scene: &ContentId, choice: &String) -> (d: Diagnostic)
    ensures
        d@ == duplicate_choice_diagnostic(scene@, choice@),
{
    let mut message = "scene `".to_owned();
    message.append(scene.as_str());
    message.append("` repeats choice ID `");
    message.append(choice.as_str());
    message.append("`");
    error_with("scene.duplicate-choice-id", message, None)
}

fn choice_without_target(scene: &ContentId, choice: &String) -> (d: Diagnostic)
    ensures
        d@ == choice_without_target_diagnostic(scene@, choice@),
{
    let mut message = "choice `".to_owned();
    message.append(choice.as_str());
    message.append("` in scene `");
    message.append(scene.as_str());
    message.append("` has no target");
    error_with("scene.choice-missing-target", message, None)
}

fn missing_target(scene: &ContentId, choice: &String, target: &ContentId) -> (d: Diagnostic)
    ensures
        d@ == missing_target_diagnostic(scene@, choice@, target@),
{
    let mut message = "choice `".to_owned();
    message.append(choice.as_str());
    message.append("` in scene `");
    message.append(scene.as_str());
    message.append("` targets missing scene `");
    message.append(target.as_str());
    message.append("`");
    error_with("scene.missing-target", message, None)
}

fn no_choices(scene: &ContentId) -> (d: Diagnostic)
    ensures
        d@ == no_choices_diagnostic(scene@),
{
    let mut message = "nonterminal scene `".to_owned();
    message.append(scene.as_str());
    message.append("` has no choices");
    error_with("scene.no-choices", message, None)
}

/// How many scenes have the identifier `id`.
fn count_scenes(scenes: &Vec<SceneDefinition>, id: &ContentId) -> (count: usize)
    ensures
        count == scene_count(scenes@, id@, scenes@.len() as int),
{
    let mut count: usize = 0;
    let mut k: usize = 0;
    while k < scenes.len()
        invariant
            k <= scenes@.len(),
            count == scene_count(scenes@, id@, k as int),
            count <= k,
        decreases scenes@.len() - k,
    {
        if scenes[k].id == *id {
            count = count + 1;
        }
        k = k + 1;
    }
    count
}

/// Whether no scene before position `k` has the identifier of scene `k`.
fn is_first_with_id(scenes: &Vec<SceneDefinition>, k: usize) -> (first: bool)
    requires
        k < scenes@.len(),
    ensures
        first == first_with_id(scenes@, k as int),
{
    let mut j: usize = 0;
    while j < k
        invariant
            k < scenes@.len(),
            j <= k,
            forall|m: int| 0 <= m < j ==> (#[trigger] scenes@[m]).id@ != scenes@[k as int].id@,
        decreases k - j,
    {
        if scenes[j].id == scenes[k].id {
            assert(scenes@[j as int].id@ == scenes@[k as int].id@);
            return false;
        }
        j = j + 1;
    }
    true
}

/// Whether choice `j` repeats the identifier of an earlier choice.
fn repeats_earlier_choice(choices: &Vec<ChoiceDefinition>, j: usize) -> (repeats: bool)
    requires
        j < choices@.len(),
    ensures
        repeats == repeats_choice_id(choices@, j as int),
{
    let mut m: usize = 0;
    while m < j
        invariant
            j < choices@.len(),
            m <= j,
            forall|q: int| 0 <= q < m ==> (#[trigger] choices@[q]).id@ != choices@[j as int].id@,
        decreases j - m,
    {
        if choices[m].id == choices[j].id {
            assert(choices@[m as int].id@ == choices@[j as int].id@);
            return true;
        }
        m = m + 1;
    }
    false
}

/// Appends the diagnostics of one scene to `found`.
fn push_scene_diagnostics(found: &mut Vec<Diagnostic>, scenes: &Vec<SceneDefinition>, scene: &SceneDefinition)
    ensures
        diagnostics_view(final(found)@) == diagnostics_view(old(found)@) + scene_diagnostics(scenes@, *scene),
{
    let ghost start = diagnostics_view(found@);
    let mut j: usize = 0;
    while j < scene.choices.len()
        invariant
            j <= scene.choices@.len(),
            diagnostics_view(found@) == start + choices_part(scenes@, *scene, j as int),
        decreases scene.choices@.len() - j,
    {
        let ghost before = diagnostics_view(found@);
        let choice = &scene.choices[j];
        if repeats_earlier_choice(&scene.choices, j) {
            found.push(duplicate_choice(&scene.id, &choice.id));
        }
        let ghost after_repeat = diagnostics_view(found@);
        if !scene.terminal && choice.target.is_none() {
            found.push(choice_without_target(&scene.id, &choice.id));
        }
        let ghost after_target = diagnostics_view(found@);
        match &choice.target {
            Some(t) => {
                if !contains_scene(scenes, t) {
                    found.push(missing_target(&scene.id, &choice.id, t));
                }
            },
            None => {},
        }
        proof {
            let c = choice_diagnostics(scenes@, *scene, j as int);
            assert(after_repeat =~= before + (if repeats_choice_id(scene.choices@, j as int) {
                seq![duplicate_choice_diagnostic(scene.id@, choice.id@)]
            } else {
                seq![]
            }));
            assert(diagnostics_view(found@) =~= before + c);
        }
        j = j + 1;
    }
    if !scene.terminal && scene.choices.len() == 0 {
        found.push(no_choices(&scene.id));
    }
    assert(diagnostics_view(found@) =~= start + scene_diagnostics(scenes@, *scene));
}

/// The main path separator of the platform the library runs on.
///
/// Trusted: reads `std::path::MAIN_SEPARATOR`, which std documents as the
/// primary separator of path components for the current platform, `/` on
/// Unix and `\` on Windows. Which of the two it is depends on the platform,
/// so the contract states only that it is one of them.
#[verifier::external_body]
fn main_separator() -> (separator: char)
    ensures
        separator == '/' || separator == '\\',
{
    std::path::MAIN_SEPARATOR
}

/// Validates a fully loaded campaign and returns every issue that was
/// found, in the report order: by path, then code, then message.
///
/// Validation collects all problems instead of stopping at the first one;
/// the result holds each problem of [`campaign_problems`] exactly as often
/// as it occurs there, with manifest paths joined on the platform's main
/// path separator.
pub fn validate_campaign(campaign: &LoadedCampaign) -> (diagnostics: Vec<Diagnostic>)
    ensures
        exists|separator: char|
            {
                &&& (separator == '/' || separator == '\\')
                &&& diagnostics_sorted(diagnostics_view(diagnostics@))
                &&& diagnostics_view(diagnostics@).to_multiset() == campaign_problems(
                    campaign,
                    separator,
                ).to_multiset()
            },
{
    let separator = main_separator();
    validate_campaign_with_separator(campaign, separator)
}

/// Validates a fully loaded campaign as [`validate_campaign`] does, joining
/// manifest paths on `separator` as the platform's main path separator.
pub fn validate_campaign_with_separator(campaign: &LoadedCampaign, separator: char) -> (diagnostics: Vec<
    Diagnostic,
>)
    ensures
        diagnostics_sorted(diagnostics_view(diagnostics@)),
        diagnostics_view(diagnostics@).to_multiset() == campaign_problems(campaign, separator).to_multiset(),
{
    let scenes = &campaign.scenes;
    let mut found: Vec<Diagnostic> = Vec::new();
    if campaign.manifest.schema_version != schema_version() {
        found.push(unsupported_schema(&campaign.root, campaign.manifest.schema_version, separator));
    }
    let ghost schema_part = diagnostics_view(found@);
    proof {
        assert(schema_part =~= (if campaign.manifest.schema_version != 1 {
            seq![unsupported_schema_diagnostic(campaign.root@, campaign.manifest.schema_version, separator)]
        } else {
            seq![]
        }));
    }
    let mut k: usize = 0;
    assert(diagnostics_view(found@) =~= schema_part + duplicate_scene_part(scenes@, 0));
    while k < scenes.len()
        invariant
            k <= scenes@.len(),
            scenes == &campaign.scenes,
            diagnostics_view(found@) == schema_part + duplicate_scene_part(scenes@, k as int),
        decreases scenes@.len() - k,
    {
        let ghost before = diagnostics_view(found@);
        let first = is_first_with_id(scenes, k);
        let count = count_scenes(scenes, &scenes[k].id);
        if first && count > 1 {
            found.push(duplicate_scene(&scenes[k].id, count));
        }
        assert(diagnostics_view(found@) =~= before + (if first && count > 1 {
            seq![duplicate_scene_diagnostic(scenes@[k as int].id@, count as nat)]
        } else {
            seq![]
        }));
        assert(diagnostics_view(found@) =~= schema_part + duplicate_scene_part(scenes@, k + 1));
        k = k + 1;
    }
    let ghost duplicates = diagnostics_view(found@);
    if !contains_scene(scenes, &campaign.manifest.entry_scene) {
        found.push(missing_entry(&campaign.root, &campaign.manifest.entry_scene, separator));
    }
    let ghost with_entry = diagnostics_view(found@);
    proof {
        assert(with_entry =~= duplicates + (if !has_scene(scenes@, campaign.manifest.entry_scene@) {
            seq![missing_entry_diagnostic(campaign.root@, campaign.manifest.entry_scene@, separator)]
        } else {
            seq![]
        }));
    }
    let mut k: usize = 0;
    assert(diagnostics_view(found@) =~= with_entry + scenes_part(scenes@, 0));
    while k < scenes.len()
        invariant
            k <= scenes@.len(),
            scenes == &campaign.scenes,
            diagnostics_view(found@) == with_entry + scenes_part(scenes@, k as int),
        decreases scenes@.len() - k,
    {
        push_scene_diagnostics(&mut found, scenes, &scenes[k]);
        assert(diagnostics_view(found@) =~= with_entry + scenes_part(scenes@, k + 1));
        k = k + 1;
    }
    assert(diagnostics_view(found@) =~= campaign_problems(campaign, separator));
    sort_diagnostics(found)
}

} // verus!
