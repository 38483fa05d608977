use vstd::prelude::*;
use vstd::string::*;
use std::path::PathBuf;
use crate::text::{chars_of, lowercase, lowercase_of, occurs, occurs_in, remove_all, string_of, without};

verus! {

/// A filesystem path, carried through unchanged.
#[verifier::external_type_specification]
#[verifier::external_body]
pub struct ExPathBuf(PathBuf);

/// Calls `PathBuf::clone`. Claimed: the copy is the same path.
#[verifier::external_body]
fn copy_path(path: &PathBuf) -> (r: PathBuf)
    ensures
        r == *path,
{
    path.clone()
}

pub type PluginId = String;

/// What the host knows of a plugin.
#[derive(Clone, Debug)]
pub struct PluginInfo {
    pub id: PluginId,
    pub name: String,
    pub version: String,
    pub description: String,
    pub is_instrument: bool,
    pub is_effect: bool,
}

impl PluginInfo {
    /// A copy of this description.
    pub fn duplicate(&self) -> (r: PluginInfo)
        ensures
            r == *self,
    {
        PluginInfo {
            id: self.id.clone(),
            name: self.name.clone(),
            version: self.version.clone(),
            description: self.description.clone(),
            is_instrument: self.is_instrument,
            is_effect: self.is_effect,
        }
    }
}

/// A plugin found on disk, with the file it was found in.
pub struct PluginWrapper {
    pub info: PluginInfo,
    pub path: PathBuf,
}

/// A file name that marks an instrument: it mentions a synth or an
/// instrument, or mentions no effect at all.
pub open spec fn looks_like_instrument(lower: Seq<char>) -> bool {
    ||| occurs_in(lower, "synth"@)
    ||| occurs_in(lower, "instrument"@)
    ||| (!occurs_in(lower, "fx"@) && !occurs_in(lower, "effect"@))
}

/// A file name that marks an effect.
pub open spec fn looks_like_effect(lower: Seq<char>) -> bool {
    ||| occurs_in(lower, "fx"@)
    ||| occurs_in(lower, "effect"@)
    ||| occurs_in(lower, "reverb"@)
    ||| occurs_in(lower, "delay"@)
    ||| occurs_in(lower, "chorus"@)
    ||| occurs_in(lower, "distortion"@)
}

/// `info` is what the file named `file_name` says of its plugin: the file
/// name is the id, the name without ".clap" is the name, and the kind comes
/// from words in the lowercased file name.
pub open spec fn describes_file(info: PluginInfo, file_name: Seq<char>) -> bool {
    &&& info.id@ == file_name
    &&& info.name@ == without(file_name, ".clap"@)
    &&& info.version@ == "1.0.0"@
    &&& info.description@ == "CLAP Plugin"@
    &&& info.is_instrument == looks_like_instrument(lowercase_of(file_name))
    &&& info.is_effect == looks_like_effect(lowercase_of(file_name))
}

/// A plugin described by its file name alone is always an instrument, an
/// effect, or both.
pub proof fn lemma_file_plugins_have_a_kind(info: PluginInfo, file_name: Seq<char>)
    requires
        describes_file(info, file_name),
    ensures
        info.is_instrument || info.is_effect,
{
}

fn mentions(lower: &Vec<char>, word: &str) -> (r: bool)
    ensures
        r == occurs_in(lower@, word@),
{
    occurs(lower, &chars_of(word))
}

/// The kind of plugin that a lowercased file name marks: whether it is an
/// instrument and whether it is an effect.
pub fn plugin_kind(lowercased: &str) -> (kind: (bool, bool))
    ensures
        kind.0 == looks_like_instrument(lowercased@),
        kind.1 == looks_like_effect(lowercased@),
{
    let lower = chars_of(lowercased);
    let is_instrument = mentions(&lower, "synth") || mentions(&lower, "instrument") || (!mentions(
        &lower,
        "fx",
    ) && !mentions(&lower, "effect"));
    let is_effect = mentions(&lower, "fx") || mentions(&lower, "effect") || mentions(&lower, "reverb")
        || mentions(&lower, "delay") || mentions(&lower, "chorus") || mentions(&lower, "distortion");
    (is_instrument, is_effect)
}

/// Describes a plugin from the name of its file; a path without a readable
/// file name counts as "unknown".
pub fn plugin_info_from_file_name(file_name: Option<&str>) -> (info: PluginInfo)
    ensures
        describes_file(
            info,
            match file_name {
                Some(n) => n@,
                None => "unknown"@,
            },
        ),
{
    let name: &str = match file_name {
        Some(n) => n,
        None => "unknown",
    };
    let chars = chars_of(name);
    let lowered = lowercase(name);
    let (is_instrument, is_effect) = plugin_kind(lowered.as_str());
    let stripped = remove_all(&chars, &chars_of(".clap"));
    PluginInfo {
        id: String::from_str(name),
        name: string_of(stripped.as_slice()),
        version: String::from_str("1.0.0"),
        description: String::from_str("CLAP Plugin"),
        is_instrument,
        is_effect,
    }
}

/// Some entry of `s` has the id `id`.
pub open spec fn has_id(s: Seq<PluginWrapper>, id: Seq<char>) -> bool {
    exists|i: int| 0 <= i < s.len() && (#[trigger] s[i]).info.id@ == id
}

/// The position in `s` of an entry with the id `id`.
pub open spec fn position_of(s: Seq<PluginWrapper>, id: Seq<char>) -> int {
    choose|i: int| 0 <= i < s.len() && (#[trigger] s[i]).info.id@ == id
}

/// No two entries of `s` share an id.
pub open spec fn ids_unique(s: Seq<PluginWrapper>) -> bool {
    forall|i: int, j: int|
        0 <= i < s.len() && 0 <= j < s.len() && i != j ==> (#[trigger] s[i]).info.id@ != (
        #[trigger] s[j]).info.id@
}

/// The plugins of `s`, by id.
pub open spec fn registry_of(s: Seq<PluginWrapper>) -> Map<Seq<char>, PluginWrapper> {
    Map::new(|id: Seq<char>| has_id(s, id), |id: Seq<char>| s[position_of(s, id)])
}

proof fn lemma_position(s: Seq<PluginWrapper>, i: int)
    requires
        ids_unique(s),
        0 <= i < s.len(),
    ensures
        has_id(s, s[i].info.id@),
        position_of(s, s[i].info.id@) == i,
        registry_of(s)[s[i].info.id@] == s[i],
{
    assert(has_id(s, s[i].info.id@));
    let j = position_of(s, s[i].info.id@);
    assert(s[j].info.id@ == s[i].info.id@);
}

/// The registry after the plugins `infos`, found at `paths`, have been
/// entered one after the other; a later entry replaces an earlier one with
/// the same id.
pub open spec fn registered(
    m: Map<Seq<char>, PluginWrapper>,
    infos: Seq<PluginInfo>,
    paths: Seq<PathBuf>,
) -> Map<Seq<char>, PluginWrapper>
    decreases infos.len(),
{
    if infos.len() == 0 {
        m
    } else {
        let k = infos.len() - 1;
        registered(m, infos.drop_last(), paths).insert(
            infos[k].id@,
            PluginWrapper { info: infos[k], path: paths[k] },
        )
    }
}

/// Entering plugins depends only on the paths of the plugins entered.
proof fn lemma_registered_prefix(
    m: Map<Seq<char>, PluginWrapper>,
    infos: Seq<PluginInfo>,
    p: Seq<PathBuf>,
    q: Seq<PathBuf>,
)
    requires
        infos.len() <= p.len(),
        infos.len() <= q.len(),
        forall|k: int| 0 <= k < infos.len() ==> p[k] == q[k],
    ensures
        registered(m, infos, p) == registered(m, infos, q),
    decreases infos.len(),
{
    if infos.len() > 0 {
        lemma_registered_prefix(m, infos.drop_last(), p, q);
    }
}

/// A scan enters every plugin it lists, whatever its kind: each id found is
/// in the registry afterwards.
pub proof fn lemma_scan_enters_every_plugin(
    m: Map<Seq<char>, PluginWrapper>,
    infos: Seq<PluginInfo>,
    paths: Seq<PathBuf>,
)
    requires
        infos.len() <= paths.len(),
    ensures
        forall|k: int| 0 <= k < infos.len() ==> registered(m, infos, paths).contains_key(#[trigger] infos[k].id@),
    decreases infos.len(),
{
    if infos.len() > 0 {
        lemma_scan_enters_every_plugin(m, infos.drop_last(), paths);
        assert forall|k: int| 0 <= k < infos.len() implies registered(m, infos, paths).contains_key(
            #[trigger] infos[k].id@,
        ) by {
            if k < infos.len() - 1 {
                assert(infos.drop_last()[k] == infos[k]);
            }
        }
    }
}

/// After a scan, the registry's entry for an id is the plugin of the last
/// file scanned with that id, with that file's path.
pub proof fn lemma_scan_keeps_last_file_per_id(
    m: Map<Seq<char>, PluginWrapper>,
    infos: Seq<PluginInfo>,
    paths: Seq<PathBuf>,
    k: int,
)
    requires
        infos.len() <= paths.len(),
        0 <= k < infos.len(),
        forall|later: int| k < later < infos.len() ==> (#[trigger] infos[later]).id@ != infos[k].id@,
    ensures
        lookup(registered(m, infos, paths), infos[k].id@) == Some(PluginWrapper { info: infos[k], path: paths[k] }),
        path_of(registered(m, infos, paths), infos[k].id@) == Some(paths[k]),
    decreases infos.len(),
{
    if k < infos.len() - 1 {
        let shorter = infos.drop_last();
        assert(shorter[k] == infos[k]);
        assert forall|later: int| k < later < shorter.len() implies (#[trigger] shorter[later]).id@ != shorter[k].id@ by {
            assert(shorter[later] == infos[later]);
        }
        lemma_scan_keeps_last_file_per_id(m, shorter, paths, k);
        assert(infos[infos.len() - 1].id@ != infos[k].id@);
    }
}

/// A scan leaves the entries of ids that it did not find as they were.
pub proof fn lemma_scan_keeps_other_ids(
    m: Map<Seq<char>, PluginWrapper>,
    infos: Seq<PluginInfo>,
    paths: Seq<PathBuf>,
    id: Seq<char>,
)
    requires
        forall|k: int| 0 <= k < infos.len() ==> (#[trigger] infos[k]).id@ != id,
    ensures
        lookup(registered(m, infos, paths), id) == lookup(m, id),
    decreases infos.len(),
{
    if infos.len() > 0 {
        let shorter = infos.drop_last();
        assert forall|k: int| 0 <= k < shorter.len() implies (#[trigger] shorter[k]).id@ != id by {
            assert(shorter[k] == infos[k]);
        }
        lemma_scan_keeps_other_ids(m, shorter, paths, id);
        assert(infos[infos.len() - 1].id@ != id);
    }
}

/// The kind of a plugin read from the words of its lowercased file name: a
/// name with "fx", "effect", "reverb", "delay", "chorus" or "distortion" in
/// it is an effect, and only such a name is; a name with "synth" or
/// "instrument" in it, or with neither "fx" nor "effect", is an instrument,
/// and only such a name is.
pub proof fn lemma_plugin_kind_words(lower: Seq<char>)
    ensures
        looks_like_effect(lower) == (occurs_in(lower, "fx"@) || occurs_in(lower, "effect"@) || occurs_in(
            lower,
            "reverb"@,
        ) || occurs_in(lower, "delay"@) || occurs_in(lower, "chorus"@) || occurs_in(lower, "distortion"@)),
        looks_like_instrument(lower) == (occurs_in(lower, "synth"@) || occurs_in(lower, "instrument"@) || (
        !occurs_in(lower, "fx"@) && !occurs_in(lower, "effect"@))),
{
}

/// What a plugin described by its file name is, by the words of the
/// lowercased file name.
pub proof fn lemma_file_plugin_kind(info: PluginInfo, file_name: Seq<char>)
    requires
        describes_file(info, file_name),
    ensures
        info.is_effect == (occurs_in(lowercase_of(file_name), "fx"@) || occurs_in(lowercase_of(file_name), "effect"@)
            || occurs_in(lowercase_of(file_name), "reverb"@) || occurs_in(lowercase_of(file_name), "delay"@)
            || occurs_in(lowercase_of(file_name), "chorus"@) || occurs_in(lowercase_of(file_name), "distortion"@)),
        info.is_instrument == (occurs_in(lowercase_of(file_name), "synth"@) || occurs_in(
            lowercase_of(file_name),
            "instrument"@,
        ) || (!occurs_in(lowercase_of(file_name), "fx"@) && !occurs_in(lowercase_of(file_name), "effect"@))),
{
    lemma_plugin_kind_words(lowercase_of(file_name));
}

/// The plugins that a scan could describe, in order, each with its file; the
/// files whose description failed are left out.
pub open spec fn described(scanned: Seq<(Result<PluginInfo, String>, PathBuf)>) -> Seq<(PluginInfo, PathBuf)>
    decreases scanned.len(),
{
    if scanned.len() == 0 {
        Seq::empty()
    } else {
        let rest = described(scanned.drop_last());
        match scanned.last().0 {
            Ok(info) => rest.push((info, scanned.last().1)),
            Err(_) => rest,
        }
    }
}

/// The registry `m` after `w` has been entered: it replaces an entry with the
/// same id.
pub open spec fn with_entry(m: Map<Seq<char>, PluginWrapper>, w: PluginWrapper) -> Map<Seq<char>, PluginWrapper> {
    m.insert(w.info.id@, w)
}

/// The entry of registry `m` under `id`, if there is one.
pub open spec fn lookup(m: Map<Seq<char>, PluginWrapper>, id: Seq<char>) -> Option<PluginWrapper> {
    if m.contains_key(id) {
        Some(m[id])
    } else {
        None
    }
}

/// The file of the entry of registry `m` under `id`, if there is one.
pub open spec fn path_of(m: Map<Seq<char>, PluginWrapper>, id: Seq<char>) -> Option<PathBuf> {
    match lookup(m, id) {
        Some(w) => Some(w.path),
        None => None,
    }
}

/// The registry after the plugins `entries` have been entered one after the
/// other; a later entry replaces an earlier one with the same id.
pub open spec fn entered(m: Map<Seq<char>, PluginWrapper>, entries: Seq<(PluginInfo, PathBuf)>) -> Map<
    Seq<char>,
    PluginWrapper,
>
    decreases entries.len(),
{
    if entries.len() == 0 {
        m
    } else {
        entered(m, entries.drop_last()).insert(
            entries.last().0.id@,
            PluginWrapper { info: entries.last().0, path: entries.last().1 },
        )
    }
}

/// The plugins that the host offers without scanning, for development.
pub open spec fn is_test_synth(info: PluginInfo) -> bool {
    &&& info.id@ == "test_synth"@
    &&& info.name@ == "Test Synth"@
    &&& info.version@ == "1.0.0"@
    &&& info.description@ == "Test instrument plugin"@
    &&& info.is_instrument
    &&& !info.is_effect
}

pub open spec fn is_test_reverb(info: PluginInfo) -> bool {
    &&& info.id@ == "test_reverb"@
    &&& info.name@ == "Test Reverb"@
    &&& info.version@ == "1.0.0"@
    &&& info.description@ == "Test effect plugin"@
    &&& !info.is_instrument
    &&& info.is_effect
}

pub fn test_plugins() -> (list: Vec<PluginInfo>)
    ensures
        list@.len() == 2,
        is_test_synth(list@[0]),
        is_test_reverb(list@[1]),
{
    let mut list: Vec<PluginInfo> = Vec::new();
    list.push(
        PluginInfo {
            id: String::from_str("test_synth"),
            name: String::from_str("Test Synth"),
            version: String::from_str("1.0.0"),
            description: String::from_str("Test instrument plugin"),
            is_instrument: true,
            is_effect: false,
        },
    );
    list.push(
        PluginInfo {
            id: String::from_str("test_reverb"),
            name: String::from_str("Test Reverb"),
            version: String::from_str("1.0.0"),
            description: String::from_str("Test effect plugin"),
            is_instrument: false,
            is_effect: true,
        },
    );
    list
}

/// The plugins found on disk, by id.
pub struct PluginManager {
    plugins: Vec<PluginWrapper>,
}

impl View for PluginManager {
    type V = Map<Seq<char>, PluginWrapper>;

    closed spec fn view(&self) -> Map<Seq<char>, PluginWrapper> {
        registry_of(self.plugins@)
    }
}

impl PluginManager {
    /// The manager's own invariant: one entry per id.
    #[verifier::type_invariant]
    spec fn one_entry_per_id(self) -> bool {
        ids_unique(self.plugins@)
    }

    pub fn new() -> (m: PluginManager)
        ensures
            m@ == Map::<Seq<char>, PluginWrapper>::empty(),
    {
        let m = PluginManager { plugins: Vec::new() };
        assert(m@ =~= Map::<Seq<char>, PluginWrapper>::empty());
        m
    }

    fn find(&self, id: &String) -> (r: Option<usize>)
        ensures
            r matches Some(i) ==> i < self.plugins@.len() && self.plugins@[i as int].info.id@ == id@,
            r is None ==> !has_id(self.plugins@, id@),
    {
        let mut i: usize = 0;
        while i < self.plugins.len()
            invariant
                i <= self.plugins@.len(),
                forall|j: int| 0 <= j < i ==> (#[trigger] self.plugins@[j]).info.id@ != id@,
            decreases self.plugins@.len() - i,
        {
            if self.plugins[i].info.id == *id {
                return Some(i);
            }
            i = i + 1;
        }
        None
    }

    /// Enters a plugin; one already entered under the same id is replaced.
    pub fn insert(&mut self, wrapper: PluginWrapper)
        ensures
            final(self)@ == with_entry(old(self)@, wrapper),
    {
        proof {
            use_type_invariant(&*self);
        }
        let ghost old_s = self.plugins@;
        let ghost key = wrapper.info.id@;
        let found = self.find(&wrapper.info.id);
        let mut plugins: Vec<PluginWrapper> = Vec::new();
        core::mem::swap(&mut plugins, &mut self.plugins);
        match found {
            Some(i) => {
                let ghost w = wrapper;
                plugins.set(i, wrapper);
                proof {
                    let s = plugins@;
                    assert(s == old_s.update(i as int, w));
                    assert(ids_unique(s)) by {
                        assert forall|a: int, b: int|
                            0 <= a < s.len() && 0 <= b < s.len() && a != b implies (#[trigger] s[a]).info.id@
                            != (#[trigger] s[b]).info.id@ by {
                            if a != i && b != i {
                                assert(old_s[a] == s[a] && old_s[b] == s[b]);
                            } else if a == i {
                                assert(old_s[b].info.id@ != old_s[i as int].info.id@);
                            } else {
                                assert(old_s[a].info.id@ != old_s[i as int].info.id@);
                            }
                        }
                    }
                    assert forall|k: Seq<char>| #[trigger] has_id(s, k) == has_id(old_s, k) || k == key by {
                        if has_id(s, k) && k != key {
                            let a = position_of(s, k);
                            assert(old_s[a] == s[a]);
                        }
                        if has_id(old_s, k) && k != key {
                            let a = position_of(old_s, k);
                            assert(old_s[a] == s[a]);
                        }
                    }
                    assert forall|k: Seq<char>| has_id(old_s, k) && k != key implies registry_of(s)[k]
                        == #[trigger] registry_of(old_s)[k] by {
                        let a = position_of(old_s, k);
                        lemma_position(old_s, a);
                        assert(s[a] == old_s[a]);
                        lemma_position(s, a);
                    }
                    lemma_position(s, i as int);
                    assert(registry_of(s) =~= registry_of(old_s).insert(key, w));
                }
            },
            None => {
                let ghost w = wrapper;
                plugins.push(wrapper);
                proof {
                    let s = plugins@;
                    assert(s == old_s.push(w));
                    assert(ids_unique(s)) by {
                        assert forall|a: int, b: int|
                            0 <= a < s.len() && 0 <= b < s.len() && a != b implies (#[trigger] s[a]).info.id@
                            != (#[trigger] s[b]).info.id@ by {
                            if a < old_s.len() && b < old_s.len() {
                                assert(old_s[a] == s[a] && old_s[b] == s[b]);
                            } else if a == old_s.len() {
                                assert(old_s[b] == s[b]);
                            } else {
                                assert(old_s[a] == s[a]);
                            }
                        }
                    }
                    assert forall|k: Seq<char>| #[trigger] has_id(s, k) == (has_id(old_s, k) || k == key) by {
                        if has_id(old_s, k) {
                            let a = position_of(old_s, k);
                            assert(s[a] == old_s[a]);
                        }
                        if k == key {
                            assert(s[old_s.len() as int] == w);
                        }
                        if has_id(s, k) && k != key {
                            let a = position_of(s, k);
                            assert(a < old_s.len());
                            assert(old_s[a] == s[a]);
                        }
                    }
                    assert forall|k: Seq<char>| has_id(old_s, k) implies registry_of(s)[k]
                        == #[trigger] registry_of(old_s)[k] by {
                        let a = position_of(old_s, k);
                        lemma_position(old_s, a);
                        assert(s[a] == old_s[a]);
                        lemma_position(s, a);
                    }
                    lemma_position(s, old_s.len() as int);
                    assert(registry_of(s) =~= registry_of(old_s).insert(key, w));
                }
            },
        }
        self.plugins = plugins;
    }

    /// Every plugin entered, each once, in no particular order.
    pub fn get_available_plugins(&self) -> (list: Vec<&PluginInfo>)
        ensures
            forall|i: int|
                0 <= i < list@.len() ==> self@.contains_key((#[trigger] list@[i]).id@) && self@[list@[i].id@].info
                    == *list@[i],
            forall|id: Seq<char>|
                #[trigger] self@.contains_key(id) ==> exists|i: int| 0 <= i < list@.len() && list@[i].id@ == id,
            forall|i: int, j: int|
                0 <= i < list@.len() && 0 <= j < list@.len() && i != j ==> (#[trigger] list@[i]).id@ != (
                #[trigger] list@[j]).id@,
    {
        proof {
            use_type_invariant(self);
        }
        let mut list: Vec<&PluginInfo> = Vec::new();
        let mut i: usize = 0;
        while i < self.plugins.len()
            invariant
                ids_unique(self.plugins@),
                i <= self.plugins@.len(),
                list@.len() == i,
                forall|j: int| 0 <= j < i ==> *(#[trigger] list@[j]) == self.plugins@[j].info,
            decreases self.plugins@.len() - i,
        {
            list.push(&self.plugins[i].info);
            i = i + 1;
        }
        proof {
            assert forall|i: int|
                0 <= i < list@.len() implies self@.contains_key((#[trigger] list@[i]).id@) && self@[list@[i].id@].info
                    == *list@[i] by {
                lemma_position(self.plugins@, i);
            }
            assert forall|id: Seq<char>| #[trigger] self@.contains_key(id) implies exists|i: int|
                0 <= i < list@.len() && list@[i].id@ == id by {
                let a = position_of(self.plugins@, id);
                assert(list@[a].id@ == id);
            }
        }
        list
    }

    /// The file that the plugin `plugin_id` was found in, if it was found.
    pub fn get_plugin_path(&self, plugin_id: &str) -> (path: Option<PathBuf>)
        ensures
            path == path_of(self@, plugin_id@),
    {
        proof {
            use_type_invariant(self);
        }
        let id = String::from_str(plugin_id);
        match self.find(&id) {
            Some(i) => {
                proof {
                    lemma_position(self.plugins@, i as int);
                }
                Some(copy_path(&self.plugins[i].path))
            },
            None => None,
        }
    }

    /// The entry of the plugin `plugin_id`, or the message that it is unknown.
    pub fn wrapper_for(&self, plugin_id: &str) -> (r: Result<&PluginWrapper, String>)
        ensures
            r is Ok == lookup(self@, plugin_id@) is Some,
            r matches Ok(w) ==> lookup(self@, plugin_id@) == Some(*w),
            r matches Err(msg) ==> msg@ == "Plugin not found: "@ + plugin_id@,
    {
        proof {
            use_type_invariant(self);
        }
        let id = String::from_str(plugin_id);
        match self.find(&id) {
            Some(i) => {
                proof {
                    lemma_position(self.plugins@, i as int);
                }
                Ok(&self.plugins[i])
            },
            None => {
                let mut msg = String::from_str("Plugin not found: ");
                msg.append(plugin_id);
                Err(msg)
            },
        }
    }

    /// The plugins offered after a scan whose files were described as in
    /// `scanned` (a description, or the reason there is none, with the file):
    /// the test plugins first, then each plugin described, in order. Each
    /// described plugin is entered under its id.
    pub fn register_scanned(&mut self, scanned: Vec<(Result<PluginInfo, String>, PathBuf)>) -> (r: Result<
        Vec<PluginInfo>,
        String,
    >)
        ensures
            r matches Ok(list) && {
                &&& list@.len() == 2 + described(scanned@).len()
                &&& is_test_synth(list@[0])
                &&& is_test_reverb(list@[1])
                &&& forall|i: int|
                    0 <= i < described(scanned@).len() ==> #[trigger] list@[2 + i] == described(scanned@)[i].0
                &&& final(self)@ == entered(old(self)@, described(scanned@))
            },
    {
        let mut discovered = test_plugins();
        let mut i: usize = 0;
        while i < scanned.len()
            invariant
                i <= scanned@.len(),
                discovered@.len() == 2 + described(scanned@.subrange(0, i as int)).len(),
                is_test_synth(discovered@[0]),
                is_test_reverb(discovered@[1]),
                forall|j: int|
                    0 <= j < described(scanned@.subrange(0, i as int)).len() ==> #[trigger] discovered@[2 + j]
                        == described(scanned@.subrange(0, i as int))[j].0,
                self@ == entered(old(self)@, described(scanned@.subrange(0, i as int))),
            decreases scanned@.len() - i,
        {
            proof {
                assert(scanned@.subrange(0, i + 1).drop_last() =~= scanned@.subrange(0, i as int));
                assert(scanned@.subrange(0, i + 1).last() == scanned@[i as int]);
            }
            match &scanned[i].0 {
                Ok(info) => {
                    let ghost before = discovered@;
                    let ghost prefix = described(scanned@.subrange(0, i as int));
                    discovered.push(info.duplicate());
                    self.insert(PluginWrapper { info: info.duplicate(), path: copy_path(&scanned[i].1) });
                    proof {
                        let next = described(scanned@.subrange(0, i + 1));
                        assert(next == prefix.push((*info, scanned@[i as int].1)));
                        assert(next.drop_last() =~= prefix);
                        assert forall|j: int| 0 <= j < next.len() implies #[trigger] discovered@[2 + j] == next[j].0 by {
                            if j < prefix.len() {
                                assert(discovered@[2 + j] == before[2 + j]);
                            }
                        }
                    }
                },
                Err(_) => {},
            }
            i = i + 1;
        }
        proof {
            assert(scanned@.subrange(0, scanned@.len() as int) =~= scanned@);
        }
        Ok(discovered)
    }

    /// Describes the plugin in a file from the file's name (`None` when the
    /// path has no readable file name). This never fails.
    pub fn scan_plugin_file(&self, file_name: Option<&str>) -> (r: Result<PluginInfo, String>)
        ensures
            r matches Ok(info) && describes_file(
                info,
                match file_name {
                    Some(n) => n@,
                    None => "unknown"@,
                },
            ),
    {
        Ok(plugin_info_from_file_name(file_name))
    }

    /// The plugins offered after a scan that found the plugin files `found`
    /// (each with its file name, when readable): the test plugins first, then
    /// one per file in order. Each file's plugin is entered under its id.
    pub fn scan_plugins(&mut self, found: Vec<(Option<String>, PathBuf)>) -> (r: Result<Vec<PluginInfo>, String>)
        ensures
            r matches Ok(list) && {
                &&& list@.len() == 2 + found@.len()
                &&& is_test_synth(list@[0])
                &&& is_test_reverb(list@[1])
                &&& forall|i: int|
                    0 <= i < found@.len() ==> describes_file(
                        #[trigger] list@[2 + i],
                        match found@[i].0 {
                            Some(n) => n@,
                            None => "unknown"@,
                        },
                    )
                &&& final(self)@ == registered(old(self)@, list@.skip(2), found@.map_values(|f: (Option<String>, PathBuf)| f.1))
            },
    {
        let mut discovered = test_plugins();
        let ghost paths = found@.map_values(|f: (Option<String>, PathBuf)| f.1);
        let mut i: usize = 0;
        while i < found.len()
            invariant
                i <= found@.len(),
                paths == found@.map_values(|f: (Option<String>, PathBuf)| f.1),
                discovered@.len() == 2 + i,
                is_test_synth(discovered@[0]),
                is_test_reverb(discovered@[1]),
                forall|j: int|
                    0 <= j < i ==> describes_file(
                        #[trigger] discovered@[2 + j],
                        match found@[j].0 {
                            Some(n) => n@,
                            None => "unknown"@,
                        },
                    ),
                self@ == registered(old(self)@, discovered@.skip(2), paths.take(i as int)),
            decreases found@.len() - i,
        {
            let file_name: Option<&str> = match &found[i].0 {
                Some(n) => Some(n.as_str()),
                None => None,
            };
            let info = plugin_info_from_file_name(file_name);
            let path = copy_path(&found[i].1);
            let ghost before = discovered@;
            discovered.push(info.duplicate());
            self.insert(PluginWrapper { info, path });
            proof {
                let infos = discovered@.skip(2);
                assert(infos.drop_last() =~= before.skip(2));
                assert(paths.take(i + 1)[i as int] == found@[i as int].1);
                assert forall|k: int| 0 <= k < i implies #[trigger] paths.take(i + 1)[k] == paths.take(i as int)[k] by {}
                lemma_registered_prefix(old(self)@, before.skip(2), paths.take(i as int), paths.take(i + 1));
            }
            i = i + 1;
        }
        proof {
            assert(paths.take(found@.len() as int) =~= paths);
        }
        Ok(discovered)
    }
}


/// Registering described plugins enters every one of them, whatever its
/// kind, and the entry for an id is the last plugin described with that id,
/// with its file.
pub proof fn lemma_register_keeps_last_entry_per_id(
    m: Map<Seq<char>, PluginWrapper>,
    entries: Seq<(PluginInfo, PathBuf)>,
    k: int,
)
    requires
        0 <= k < entries.len(),
        forall|later: int| k < later < entries.len() ==> (#[trigger] entries[later]).0.id@ != entries[k].0.id@,
    ensures
        entered(m, entries).contains_key(entries[k].0.id@),
        lookup(entered(m, entries), entries[k].0.id@) == Some(PluginWrapper { info: entries[k].0, path: entries[k].1 }),
        path_of(entered(m, entries), entries[k].0.id@) == Some(entries[k].1),
    decreases entries.len(),
{
    if k < entries.len() - 1 {
        let shorter = entries.drop_last();
        assert(shorter[k] == entries[k]);
        assert forall|later: int| k < later < shorter.len() implies (#[trigger] shorter[later]).0.id@
            != shorter[k].0.id@ by {
            assert(shorter[later] == entries[later]);
        }
        lemma_register_keeps_last_entry_per_id(m, shorter, k);
        assert(entries[entries.len() - 1].0.id@ != entries[k].0.id@);
    }
}

/// Registering described plugins leaves the entries of other ids as they were.
pub proof fn lemma_register_keeps_other_ids(
    m: Map<Seq<char>, PluginWrapper>,
    entries: Seq<(PluginInfo, PathBuf)>,
    id: Seq<char>,
)
    requires
        forall|k: int| 0 <= k < entries.len() ==> (#[trigger] entries[k]).0.id@ != id,
    ensures
        lookup(entered(m, entries), id) == lookup(m, id),
    decreases entries.len(),
{
    if entries.len() > 0 {
        let shorter = entries.drop_last();
        assert forall|k: int| 0 <= k < shorter.len() implies (#[trigger] shorter[k]).0.id@ != id by {
            assert(shorter[k] == entries[k]);
        }
        lemma_register_keeps_other_ids(m, shorter, id);
        assert(entries[entries.len() - 1].0.id@ != id);
    }
}

/// A plugin just entered is what a lookup of its id finds, together with
/// its file; a lookup of any other id finds what it found before.
pub proof fn lemma_entered_plugin_is_found(m: Map<Seq<char>, PluginWrapper>, w: PluginWrapper, other: Seq<char>)
    requires
        other != w.info.id@,
    ensures
        lookup(with_entry(m, w), w.info.id@) == Some(w),
        path_of(with_entry(m, w), w.info.id@) == Some(w.path),
        lookup(with_entry(m, w), other) == lookup(m, other),
        path_of(with_entry(m, w), other) == path_of(m, other),
{
}

/// Some entry of `features` reads `tag`.
pub open spec fn has_feature(features: Seq<String>, tag: Seq<char>) -> bool {
    exists|i: int| 0 <= i < features.len() && (#[trigger] features[i])@ == tag
}

fn find_feature(features: &Vec<String>, tag: &str) -> (r: bool)
    ensures
        r == has_feature(features@, tag@),
{
    let wanted = String::from_str(tag);
    let mut i: usize = 0;
    while i < features.len()
        invariant
            wanted@ == tag@,
            i <= features@.len(),
            forall|j: int| 0 <= j < i ==> (#[trigger] features@[j])@ != tag@,
        decreases features@.len() - i,
    {
        if features[i] == wanted {
            return true;
        }
        i = i + 1;
    }
    false
}

fn text_or(value: Option<&str>, fallback: &str) -> (r: String)
    ensures
        r@ == (match value {
            Some(v) => v@,
            None => fallback@,
        }),
{
    match value {
        Some(v) => String::from_str(v),
        None => String::from_str(fallback),
    }
}

/// Describes a plugin from the fields of its CLAP descriptor; a missing field
/// takes a default ("unknown", "Unknown", "1.0.0", "CLAP Plugin"), and the
/// feature tags "instrument" and "audio-effect" give the kind.
pub fn plugin_info_from_descriptor(
    id: Option<&str>,
    name: Option<&str>,
    version: Option<&str>,
    description: Option<&str>,
    features: &Vec<String>,
) -> (info: PluginInfo)
    ensures
        info.id@ == (match id {
            Some(v) => v@,
            None => "unknown"@,
        }),
        info.name@ == (match name {
            Some(v) => v@,
            None => "Unknown"@,
        }),
        info.version@ == (match version {
            Some(v) => v@,
            None => "1.0.0"@,
        }),
        info.description@ == (match description {
            Some(v) => v@,
            None => "CLAP Plugin"@,
        }),
        info.is_instrument == has_feature(features@, "instrument"@),
        info.is_effect == has_feature(features@, "audio-effect"@),
{
    PluginInfo {
        id: text_or(id, "unknown"),
        name: text_or(name, "Unknown"),
        version: text_or(version, "1.0.0"),
        description: text_or(description, "CLAP Plugin"),
        is_instrument: find_feature(features, "instrument"),
        is_effect: find_feature(features, "audio-effect"),
    }
}

/// `path` with every '~' replaced by `home`.
pub open spec fn tilde_replaced(path: Seq<char>, home: Seq<char>) -> Seq<char>
    decreases path.len(),
{
    if path.len() == 0 {
        path
    } else {
        tilde_replaced(path.drop_last(), home) + (if path.last() == '~' {
            home
        } else {
            seq![path.last()]
        })
    }
}

/// A path that starts with '~' has every '~' replaced by the home directory,
/// when it is known; any other path stays as it is.
pub open spec fn expanded(path: Seq<char>, home: Option<Seq<char>>) -> Seq<char> {
    if path.len() > 0 && path[0] == '~' && home is Some {
        tilde_replaced(path, home->0)
    } else {
        path
    }
}

/// Expands a leading '~' of `path` with the home directory `home`.
pub fn expand_user(path: &str, home: Option<&str>) -> (r: String)
    ensures
        r@ == expanded(
            path@,
            match home {
                Some(h) => Some(h@),
                None => None,
            },
        ),
{
    let chars = chars_of(path);
    match home {
        Some(h) => {
            if chars.len() > 0 && chars[0] == '~' {
                let mut out = String::new();
                let mut i: usize = 0;
                while i < chars.len()
                    invariant
                        i <= chars@.len(),
                        out@ == tilde_replaced(chars@.subrange(0, i as int), h@),
                    decreases chars@.len() - i,
                {
                    proof {
                        assert(chars@.subrange(0, i + 1).drop_last() =~= chars@.subrange(0, i as int));
                    }
                    if chars[i] == '~' {
                        out.append(h);
                    } else {
                        out.push(chars[i]);
                        proof {
                            assert(out@ =~= tilde_replaced(chars@.subrange(0, i as int), h@) + seq![chars@[i as int]]);
                        }
                    }
                    i = i + 1;
                }
                proof {
                    assert(chars@.subrange(0, chars@.len() as int) =~= chars@);
                }
                out
            } else {
                String::from_str(path)
            }
        },
        None => String::from_str(path),
    }
}

/// The directories searched for CLAP plugins.
pub fn clap_search_paths() -> (paths: [&'static str; 4])
    ensures
        paths@[0]@ == "/usr/lib/clap"@,
        paths@[1]@ == "/usr/local/lib/clap"@,
        paths@[2]@ == "~/.clap"@,
        paths@[3]@ == "/Library/Audio/Plug-Ins/CLAP"@,
{
    ["/usr/lib/clap", "/usr/local/lib/clap", "~/.clap", "/Library/Audio/Plug-Ins/CLAP"]
}

} // verus!
