//! The configuration that plugins are given for an interaction: the plugin's own entries from
//! the pact, and the interaction's entries for that plugin.

use vstd::prelude::*;
use crate::json::{JsonValue, Json, entry_views, lemma_entry_views};
use crate::actions::{first_entry, find_entry};
use crate::generators::{first_of, put};
use crate::text::str_eq;

verus! {

/// Which part of the interaction the configuration is taken from.
#[derive(Debug, Clone, Copy, PartialEq, Eq, Structural)]
pub enum InteractionPart {
    /// No part: the whole configuration
    NoPart,
    /// The part under the `request` key
    Request,
    /// The part under the `response` key
    Response,
}

/// The data a pact holds about a plugin it needs.
#[derive(Debug)]
pub struct PluginData {
    /// Name of the plugin
    pub name: String,
    /// Version of the plugin
    pub version: String,
    /// The plugin's configuration for the pact
    pub configuration: Vec<(String, JsonValue)>,
}

/// The configuration a plugin is given for an interaction.
#[derive(Debug)]
pub struct PluginInteractionConfig {
    /// The plugin's configuration from the pact
    pub pact_configuration: Vec<(String, JsonValue)>,
    /// The interaction's configuration for the plugin
    pub interaction_configuration: Vec<(String, JsonValue)>,
}

/// The model of a plugin's configuration for an interaction: the pact's entries, then the
/// interaction's.
pub type PluginConfig = (Seq<(Seq<char>, Json)>, Seq<(Seq<char>, Json)>);

/// The model of an interaction's plugin configuration, by plugin name.
pub open spec fn interaction_view(c: Seq<(String, Vec<(String, JsonValue)>)>) -> Seq<(Seq<char>, Seq<(Seq<char>, Json)>)> {
    c.map_values(|e: (String, Vec<(String, JsonValue)>)| (e.0@, entry_views(e.1@)))
}

/// The model of the configurations, by plugin name.
pub open spec fn configs_view(c: Seq<(String, PluginInteractionConfig)>) -> Seq<(Seq<char>, PluginConfig)> {
    c.map_values(|e: (String, PluginInteractionConfig)| (e.0@,
        (entry_views(e.1.pact_configuration@), entry_views(e.1.interaction_configuration@))))
}

/// The entries of a configuration for a part: for the request or the response, the entries
/// of the object under that key (none when it is not an object), or the whole configuration
/// when there is no such key.
pub open spec fn part_config(config: Seq<(Seq<char>, Json)>, part: InteractionPart) -> Seq<(Seq<char>, Json)> {
    let key = if part == InteractionPart::Request { "request"@ } else { "response"@ };
    if part == InteractionPart::NoPart {
        config
    } else {
        match first_entry(config, key) {
            Some(Json::Object(o)) => o,
            Some(_) => Seq::empty(),
            None => config,
        }
    }
}

/// The interaction's entries for a plugin: none when the interaction has no plugin
/// configuration (it is not a V4 interaction) or none for the plugin.
pub open spec fn interaction_entries(ic: Option<Seq<(Seq<char>, Seq<(Seq<char>, Json)>)>>, name: Seq<char>, part: InteractionPart) -> Seq<(Seq<char>, Json)> {
    match ic {
        Some(m) => match first_of(m, name) {
            Some(c) => part_config(c, part),
            None => Seq::empty(),
        },
        None => Seq::empty(),
    }
}

/// The configurations of the plugins, by name: for each plugin of the pact, its entries and
/// the interaction's; a later plugin of the same name replaces an earlier one.
pub open spec fn plugin_configs(data: Seq<(Seq<char>, Seq<(Seq<char>, Json)>)>, ic: Option<Seq<(Seq<char>, Seq<(Seq<char>, Json)>)>>,
    part: InteractionPart) -> Seq<(Seq<char>, PluginConfig)>
    decreases data.len(),
{
    if data.len() == 0 {
        Seq::empty()
    } else {
        let d = data.last();
        put(plugin_configs(data.drop_last(), ic, part), d.0, (d.1, interaction_entries(ic, d.0, part)))
    }
}

/// The model of the plugin data of a pact: each plugin's name and configuration.
pub open spec fn data_view(d: Seq<PluginData>) -> Seq<(Seq<char>, Seq<(Seq<char>, Json)>)> {
    d.map_values(|p: PluginData| (p.name@, entry_views(p.configuration@)))
}

/// A copy of some object entries.
pub fn copy_entries(v: &Vec<(String, JsonValue)>) -> (r: Vec<(String, JsonValue)>)
    ensures
        entry_views(r@) == entry_views(v@),
{
    let mut out: Vec<(String, JsonValue)> = Vec::new();
    let mut i: usize = 0;
    proof { lemma_entry_views(v@); }
    while i < v.len()
        invariant
            i <= v.len(),
            out.len() == i,
            entry_views(v@).len() == v.len(),
            forall|j: int| 0 <= j < v.len() ==> #[trigger] entry_views(v@)[j] == (v@[j].0@, v@[j].1@),
            forall|j: int| 0 <= j < i ==> (#[trigger] out@[j]).0@ == v@[j].0@ && out@[j].1@ == v@[j].1@,
        decreases v.len() - i,
    {
        out.push((v[i].0.clone(), v[i].1.copy()));
        i = i + 1;
    }
    proof {
        lemma_entry_views(out@);
        assert(entry_views(out@) =~= entry_views(v@));
    }
    out
}

/// The entries of a configuration for a part; see [`part_config`].
fn part_config_of(config: &Vec<(String, JsonValue)>, part: InteractionPart) -> (r: Vec<(String, JsonValue)>)
    ensures
        entry_views(r@) == part_config(entry_views(config@), part),
{
    proof {
        reveal_strlit("request");
        reveal_strlit("response");
        lemma_entry_views(config@);
    }
    let key = if part == InteractionPart::Request { "request" } else { "response" };
    if part == InteractionPart::NoPart {
        copy_entries(config)
    } else {
        match find_entry(config, key) {
            Some(i) => match &config[i].1 {
                JsonValue::Object(o) => copy_entries(o),
                _ => {
                    let e: Vec<(String, JsonValue)> = Vec::new();
                    proof { lemma_entry_views(e@); }
                    assert(entry_views(e@) =~= Seq::<(Seq<char>, Json)>::empty());
                    e
                },
            },
            None => copy_entries(config),
        }
    }
}

/// The position of the first entry with the name, if there is one.
fn find_named<T>(entries: &Vec<(String, T)>, name: &str) -> (r: Option<usize>)
    ensures
        match r {
            Some(i) => i < entries.len() && entries@[i as int].0@ == name@
                && forall|j: int| 0 <= j < i ==> entries@[j].0@ != name@,
            None => forall|j: int| 0 <= j < entries.len() ==> entries@[j].0@ != name@,
        },
{
    let mut i: usize = 0;
    while i < entries.len()
        invariant
            i <= entries.len(),
            forall|j: int| 0 <= j < i ==> entries@[j].0@ != name@,
        decreases entries.len() - i,
    {
        if str_eq(entries[i].0.as_str(), name) {
            return Some(i);
        }
        i = i + 1;
    }
    None
}

proof fn lemma_first_of_found<V>(s: Seq<(Seq<char>, V)>, k: Seq<char>, i: int)
    requires
        0 <= i < s.len(),
        s[i].0 == k,
        forall|j: int| 0 <= j < i ==> s[j].0 != k,
    ensures
        first_of(s, k) == Some(s[i].1),
    decreases i,
{
    if i > 0 {
        assert(s.drop_first()[i - 1] == s[i]);
        assert forall|j: int| 0 <= j < i - 1 implies s.drop_first()[j].0 != k by {
            assert(s.drop_first()[j] == s[j + 1]);
        }
        lemma_first_of_found(s.drop_first(), k, i - 1);
    }
}

proof fn lemma_first_of_absent<V>(s: Seq<(Seq<char>, V)>, k: Seq<char>)
    requires
        forall|j: int| 0 <= j < s.len() ==> s[j].0 != k,
    ensures
        first_of(s, k) is None,
    decreases s.len(),
{
    if s.len() > 0 {
        assert forall|j: int| 0 <= j < s.len() - 1 implies s.drop_first()[j].0 != k by {
            assert(s.drop_first()[j] == s[j + 1]);
        }
        lemma_first_of_absent(s.drop_first(), k);
    }
}

/// The interaction's entries for a plugin; see [`interaction_entries`].
fn interaction_entries_of(interaction_config: &Option<Vec<(String, Vec<(String, JsonValue)>)>>, name: &str, part: InteractionPart)
    -> (r: Vec<(String, JsonValue)>)
    ensures
        entry_views(r@) == interaction_entries(match interaction_config {
            Some(c) => Some(interaction_view(c@)),
            None => None,
        }, name@, part),
{
    let empty: Vec<(String, JsonValue)> = Vec::new();
    proof { lemma_entry_views(empty@); }
    assert(entry_views(empty@) =~= Seq::<(Seq<char>, Json)>::empty());
    match interaction_config {
        Some(c) => {
            let ghost m = interaction_view(c@);
            match find_named(c, name) {
                Some(i) => {
                    proof { lemma_first_of_found(m, name@, i as int); }
                    part_config_of(&c[i].1, part)
                },
                None => {
                    proof { lemma_first_of_absent(m, name@); }
                    empty
                },
            }
        },
        None => empty,
    }
}

/// Sets up the configuration each plugin of the pact is given for an interaction: the
/// plugin's configuration from the pact, and the interaction's configuration for the plugin
/// (for a part, when one is asked for). The interaction's configuration is `None` when the
/// interaction is not a V4 one.
pub fn setup_plugin_config(plugin_data: &Vec<PluginData>, interaction_config: &Option<Vec<(String, Vec<(String, JsonValue)>)>>,
    part: InteractionPart) -> (r: Vec<(String, PluginInteractionConfig)>)
    ensures
        configs_view(r@) == plugin_configs(data_view(plugin_data@), match interaction_config {
            Some(c) => Some(interaction_view(c@)),
            None => None,
        }, part),
{
    let ghost ic = match interaction_config {
        Some(c) => Some(interaction_view(c@)),
        None => None,
    };
    let ghost data = data_view(plugin_data@);
    let mut out: Vec<(String, PluginInteractionConfig)> = Vec::new();
    let mut i: usize = 0;
    assert(configs_view(out@) =~= plugin_configs(data.subrange(0, 0), ic, part));
    while i < plugin_data.len()
        invariant
            i <= plugin_data.len(),
            data == data_view(plugin_data@),
            ic == match interaction_config {
                Some(c) => Some(interaction_view(c@)),
                None => None,
            },
            configs_view(out@) == plugin_configs(data.subrange(0, i as int), ic, part),
        decreases plugin_data.len() - i,
    {
        let d = &plugin_data[i];
        let config = PluginInteractionConfig {
            pact_configuration: copy_entries(&d.configuration),
            interaction_configuration: interaction_entries_of(interaction_config, d.name.as_str(), part),
        };
        let ghost before = configs_view(out@);
        let ghost entry = (d.name@, (entry_views(d.configuration@), interaction_entries(ic, d.name@, part)));
        proof {
            let sub = data.subrange(0, i + 1);
            assert(sub.drop_last() =~= data.subrange(0, i as int));
            assert(sub.last() == (d.name@, entry_views(d.configuration@)));
        }
        match find_named(&out, d.name.as_str()) {
            Some(k) => {
                proof {
                    assert forall|j: int| 0 <= j < k implies before[j].0 != d.name@ by {}
                    crate::generators::lemma_first_index(before, d.name@, k as int);
                }
                out.set(k, (d.name.clone(), config));
                proof {
                    assert(configs_view(out@) =~= before.update(k as int, entry));
                }
            },
            None => {
                proof {
                    assert forall|j: int| 0 <= j < before.len() implies before[j].0 != d.name@ by {}
                    crate::generators::lemma_first_index(before, d.name@, before.len() as int);
                }
                out.push((d.name.clone(), config));
                proof {
                    assert(configs_view(out@) =~= before.push(entry));
                }
            },
        }
        i = i + 1;
    }
    assert(data.subrange(0, plugin_data.len() as int) =~= data);
    out
}

} // verus!
