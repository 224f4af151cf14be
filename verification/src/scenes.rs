//! Presets: named captures of what every AC unit and every zone is set to.

use vstd::prelude::*;
use crate::manager::snapshot::Temperature;
use crate::text;

verus! {

/// What a preset sets an AC unit to. An unknown mode or fan speed is empty.
#[derive(Debug, PartialEq, Eq)]
pub struct SceneAc {
    pub id: u8,
    pub mode: String,
    pub fan: String,
    pub setpoint: Option<Temperature>,
    pub power: bool,
}

/// What a preset sets a zone to.
#[derive(Debug, PartialEq, Eq)]
pub struct SceneZone {
    pub id: u8,
    pub control_mode: String,
    pub setpoint: Option<Temperature>,
    pub airflow_pct: u8,
    pub enabled: bool,
}

/// A preset.
#[derive(Debug, PartialEq, Eq)]
pub struct Scene {
    pub name: String,
    pub acs: Vec<SceneAc>,
    pub zones: Vec<SceneZone>,
}

/// The saved presets.
#[derive(Debug, PartialEq, Eq)]
pub struct SceneConfig {
    pub scenes: Vec<Scene>,
}

/// The saved presets and the name of the one that matches the live state, if
/// one does.
#[derive(Debug, PartialEq, Eq)]
pub struct SceneStore {
    pub config: SceneConfig,
    pub active: Option<String>,
}

/// Where the first preset with a name stands; the length where there is none.
pub open spec fn position(scenes: Seq<Scene>, name: Seq<char>) -> nat
    decreases scenes.len(),
{
    if scenes.len() == 0 || scenes[0].name@ == name {
        0
    } else {
        1 + position(scenes.drop_first(), name)
    }
}

/// Whether some preset has a name.
pub open spec fn is_saved(scenes: Seq<Scene>, name: Seq<char>) -> bool {
    position(scenes, name) < scenes.len()
}

/// Whether no two presets share a name.
pub open spec fn distinct(scenes: Seq<Scene>) -> bool {
    forall|i: int, j: int|
        0 <= i < j < scenes.len() ==> (#[trigger] scenes[i]).name@ != (#[trigger] scenes[j]).name@
}

/// The presets with one put in the place of the one of its name, or at the end.
pub open spec fn upserted(scenes: Seq<Scene>, scene: Scene) -> Seq<Scene> {
    if is_saved(scenes, scene.name@) {
        scenes.update(position(scenes, scene.name@) as int, scene)
    } else {
        scenes.push(scene)
    }
}

/// The presets without those of a name.
pub open spec fn without(scenes: Seq<Scene>, name: Seq<char>) -> Seq<Scene>
    decreases scenes.len(),
{
    if scenes.len() == 0 {
        Seq::empty()
    } else if scenes.last().name@ == name {
        without(scenes.drop_last(), name)
    } else {
        without(scenes.drop_last(), name).push(scenes.last())
    }
}

/// The first preset with a name stands where its position says, and none before it
/// has the name.
pub proof fn lemma_position(scenes: Seq<Scene>, name: Seq<char>)
    ensures
        position(scenes, name) <= scenes.len(),
        is_saved(scenes, name) ==> scenes[position(scenes, name) as int].name@ == name,
        forall|i: int|
            0 <= i < position(scenes, name) ==> (#[trigger] scenes[i]).name@ != name,
    decreases scenes.len(),
{
    if scenes.len() > 0 && scenes[0].name@ != name {
        let rest = scenes.drop_first();
        lemma_position(rest, name);
        assert forall|i: int| 0 <= i < position(scenes, name) implies (
        #[trigger] scenes[i]).name@ != name by {
            if i > 0 {
                assert(rest[i - 1] == scenes[i]);
            }
        }
    }
}

/// A preset with a name that none before it has is the first with that name.
proof fn lemma_position_is(scenes: Seq<Scene>, name: Seq<char>, at: int)
    requires
        0 <= at <= scenes.len(),
        at < scenes.len() ==> scenes[at].name@ == name,
        forall|i: int| 0 <= i < at ==> (#[trigger] scenes[i]).name@ != name,
    ensures
        position(scenes, name) == at,
{
    lemma_position(scenes, name);
    let p = position(scenes, name) as int;
    if p < at {
        assert(scenes[p].name@ != name);
    }
}

/// Removing takes out the presets of a name, and keeps every other in its order.
pub proof fn law_without(scenes: Seq<Scene>, name: Seq<char>)
    ensures
        without(scenes, name) == scenes.filter(|s: Scene| s.name@ != name),
    decreases scenes.len(),
{
    reveal(Seq::filter);
    if scenes.len() > 0 {
        law_without(scenes.drop_last(), name);
    }
}

impl SceneConfig {
    /// Where the first preset with a name stands; the length where there is none.
    fn position_of(&self, name: &str) -> (r: usize)
        ensures
            r == position(self.scenes@, name@),
            r <= self.scenes@.len(),
    {
        for i in 0..self.scenes.len()
            invariant
                forall|k: int| 0 <= k < i ==> (#[trigger] self.scenes@[k]).name@ != name@,
        {
            if text::same(self.scenes[i].name.as_str(), name) {
                proof {
                    lemma_position_is(self.scenes@, name@, i as int);
                }
                return i;
            }
        }
        proof {
            lemma_position_is(self.scenes@, name@, self.scenes@.len() as int);
        }
        self.scenes.len()
    }

    /// The first preset with a name.
    pub fn find(&self, name: &str) -> (r: Option<&Scene>)
        ensures
            match r {
                Some(scene) => is_saved(self.scenes@, name@) && *scene == self.scenes@[position(
                    self.scenes@,
                    name@,
                ) as int],
                None => !is_saved(self.scenes@, name@),
            },
    {
        let at: usize = self.position_of(name);
        if at < self.scenes.len() {
            Some(&self.scenes[at])
        } else {
            None
        }
    }

    /// Saves a preset: in the place of the one of its name, or at the end.
    pub fn upsert(&mut self, scene: Scene)
        ensures
            final(self).scenes@ == upserted(old(self).scenes@, scene),
            final(self).scenes@.contains(scene),
            forall|i: int|
                0 <= i < old(self).scenes@.len() && (#[trigger] old(self).scenes@[i]).name@
                    != scene.name@ ==> final(self).scenes@[i] == old(self).scenes@[i],
    {
        proof {
            lemma_position(self.scenes@, scene.name@);
        }
        let at: usize = self.position_of(scene.name.as_str());
        if at < self.scenes.len() {
            self.scenes.set(at, scene);
        } else {
            self.scenes.push(scene);
        }
        assert(self.scenes@[at as int] == scene);
    }

    /// Removes the presets of a name.
    pub fn remove(&mut self, name: &str)
        ensures
            final(self).scenes@ == without(old(self).scenes@, name@),
            final(self).scenes@ == old(self).scenes@.filter(|s: Scene| s.name@ != name@),
    {
        let ghost all = self.scenes@;
        let mut i: usize = 0;
        let mut seen: Ghost<int> = Ghost(0);
        while i < self.scenes.len()
            invariant
                i <= self.scenes@.len(),
                0 <= seen@ <= all.len(),
                self.scenes@ == without(all.take(seen@), name@) + all.skip(seen@),
                i == without(all.take(seen@), name@).len(),
            decreases self.scenes@.len() - i,
        {
            let ghost kept = without(all.take(seen@), name@);
            assert(self.scenes@[i as int] == all[seen@]);
            assert(all.take(seen@ + 1).drop_last() =~= all.take(seen@));
            if text::same(self.scenes[i].name.as_str(), name) {
                self.scenes.remove(i);
                assert(self.scenes@ =~= kept + all.skip(seen@ + 1));
            } else {
                i += 1;
                assert(self.scenes@ =~= kept.push(all[seen@]) + all.skip(seen@ + 1));
            }
            proof {
                seen@ = seen@ + 1;
            }
        }
        proof {
            assert(all.skip(seen@).len() == 0);
            assert(all.take(seen@) =~= all);
            assert(self.scenes@ =~= without(all, name@));
            let n = name@;
            law_without(all, n);
            assert((|s: Scene| s.name@ != n) =~= (|s: Scene| s.name@ != name@));
        }
    }
}

} // verus!
