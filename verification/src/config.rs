//! The configuration: how each radar is installed, and the form in which that
//! is stored.

use crate::controls::{migrate_antenna_height, migrated_height, MAX_BEARING_ALIGNMENT};
use crate::double::{law_magnitude_order, Double};
use crate::json::{
    double_json, integer_json, law_doubles_are_read_back, law_integers_are_read_back, Json, JsonNumber,
    JsonView,
};
use crate::state_v5::optional_json;
use crate::string_map::{
    ascending, entries_map, lemma_entries_mapped, lemma_entry_in_map, stands_under, Copied, StringMap,
};
use vstd::prelude::*;

verus! {

/// How a radar is installed. These values are kept here, and not asked of the
/// radar. Requests that would take a value out of its range are refused; what
/// is handed in otherwise is kept as it is.
#[derive(Clone, Copy, PartialEq, Eq, Structural, Debug)]
pub struct RadarInstallationConfig {
    /// The offset of the bearing in degrees, from -180 to 180.
    pub bearing_alignment: Option<Double>,
    /// The height of the antenna in metres, from 0 to 100.
    pub antenna_height: Option<i32>,
}

impl View for RadarInstallationConfig {
    type V = RadarInstallationConfig;

    open spec fn view(&self) -> RadarInstallationConfig {
        *self
    }
}

impl Copied for RadarInstallationConfig {
    fn copied(&self) -> (copy: RadarInstallationConfig) {
        *self
    }
}

/// An installation of which nothing is known.
pub open spec fn no_installation() -> RadarInstallationConfig {
    RadarInstallationConfig { bearing_alignment: None, antenna_height: None }
}

impl Default for RadarInstallationConfig {
    fn default() -> (config: RadarInstallationConfig)
        ensures
            config == no_installation(),
    {
        RadarInstallationConfig { bearing_alignment: None, antenna_height: None }
    }
}

/// The values of an installation are in range: the bearing alignment within 180
/// degrees to either side, and the antenna height within 0 to 100 metres.
pub open spec fn installation_in_range(config: RadarInstallationConfig) -> bool {
    &&& config.bearing_alignment matches Some(degrees) ==> degrees.magnitude_at_most(
        MAX_BEARING_ALIGNMENT as nat,
    )
    &&& config.antenna_height matches Some(metres) ==> 0 <= metres <= 100
}

/// The values of all installations are in range.
pub open spec fn config_in_range(config: Map<Seq<char>, RadarInstallationConfig>) -> bool {
    forall|id: Seq<char>| #[trigger]
        config.contains_key(id) ==> installation_in_range(config[id])
}

/// The configuration: how each radar is installed, by its id.
#[derive(Debug)]
pub struct PluginConfig {
    pub radars: StringMap<RadarInstallationConfig>,
}

impl View for PluginConfig {
    type V = Map<Seq<char>, RadarInstallationConfig>;

    open spec fn view(&self) -> Map<Seq<char>, RadarInstallationConfig> {
        self.radars@
    }
}

impl Default for PluginConfig {
    fn default() -> (config: PluginConfig)
        ensures
            config@ == Map::<Seq<char>, RadarInstallationConfig>::empty(),
    {
        PluginConfig { radars: StringMap::new() }
    }
}

impl Clone for PluginConfig {
    fn clone(&self) -> (copy: PluginConfig)
        ensures
            copy@ == self@,
    {
        PluginConfig { radars: self.radars.clone() }
    }
}

// ---------------------------------------------------------------------------
// The stored form
// ---------------------------------------------------------------------------

/// How a radar is installed, as JSON values. A value that is absent, or that
/// was stored as null, is not there.
#[derive(Debug)]
pub struct StoredInstallation {
    pub bearing_alignment: Option<Json>,
    pub antenna_height: Option<Json>,
}

/// The model of a stored installation.
pub struct StoredView {
    pub bearing_alignment: Option<JsonView>,
    pub antenna_height: Option<JsonView>,
}

impl View for StoredInstallation {
    type V = StoredView;

    open spec fn view(&self) -> StoredView {
        StoredView {
            bearing_alignment: optional_json(self.bearing_alignment),
            antenna_height: optional_json(self.antenna_height),
        }
    }
}

/// The configuration as it is stored.
#[derive(Debug)]
pub struct StoredConfig {
    pub radars: StringMap<StoredInstallation>,
}

impl View for StoredConfig {
    type V = Map<Seq<char>, StoredView>;

    open spec fn view(&self) -> Map<Seq<char>, StoredView> {
        self.radars@
    }
}

/// An installation as it is stored. A bearing that is not finite has no JSON
/// number and is stored as null.
pub open spec fn stored_installation(config: RadarInstallationConfig) -> StoredView {
    StoredView {
        bearing_alignment: match config.bearing_alignment {
            Some(degrees) => Some(double_json(degrees)),
            None => None,
        },
        antenna_height: match config.antenna_height {
            Some(metres) => Some(integer_json(metres as int)),
            None => None,
        },
    }
}

/// A configuration as it is stored.
pub open spec fn stored_config(config: Map<Seq<char>, RadarInstallationConfig>) -> Map<
    Seq<char>,
    StoredView,
> {
    config.map_values(|c: RadarInstallationConfig| stored_installation(c))
}

/// The bearing alignment that a stored value stands for.
pub open spec fn restored_bearing(stored: Option<JsonView>) -> Result<Option<Double>, Seq<char>> {
    match stored {
        None => Ok(None),
        Some(JsonView::Null) => Ok(None),
        Some(JsonView::Number(n)) => Ok(Some(n.double())),
        Some(_) => Err("bearing alignment must be a number"@),
    }
}

/// The installation that stored values stand for, or why they stand for none.
pub open spec fn restored(stored: StoredView) -> Result<RadarInstallationConfig, Seq<char>> {
    match restored_bearing(stored.bearing_alignment) {
        Ok(bearing_alignment) => match migrated_height(stored.antenna_height) {
            Ok(antenna_height) => Ok(RadarInstallationConfig { bearing_alignment, antenna_height }),
            Err(why) => Err(why),
        },
        Err(why) => Err(why),
    }
}

/// Every stored installation can be read.
pub open spec fn restorable(stored: Map<Seq<char>, StoredView>) -> bool {
    forall|id: Seq<char>| #[trigger] stored.contains_key(id) ==> restored(stored[id]) is Ok
}

/// The configuration that is loaded: an empty one where nothing is stored, or
/// where anything in it cannot be read.
pub open spec fn loaded_config(stored: Option<Map<Seq<char>, StoredView>>) -> Map<
    Seq<char>,
    RadarInstallationConfig,
> {
    match stored {
        Some(s) => if restorable(s) {
            s.map_values(|v: StoredView| restored(v)->Ok_0)
        } else {
            Map::empty()
        },
        None => Map::empty(),
    }
}

fn restore_bearing(stored: Option<&Json>) -> (bearing: Result<Option<Double>, String>)
    ensures
        match bearing {
            Ok(b) => restored_bearing(
                match stored {
                    Some(j) => Some(j@),
                    None => None,
                },
            ) == Ok::<Option<Double>, Seq<char>>(b),
            Err(why) => restored_bearing(
                match stored {
                    Some(j) => Some(j@),
                    None => None,
                },
            ) == Err::<Option<Double>, Seq<char>>(why@),
        },
{
    match stored {
        None => Ok(None),
        Some(Json::Null) => Ok(None),
        Some(Json::Number(n)) => Ok(Some(n.to_double())),
        Some(_) => Err("bearing alignment must be a number".to_owned()),
    }
}

/// The installation that stored values stand for, or why they stand for none.
pub fn restore(stored: &StoredInstallation) -> (config: Result<RadarInstallationConfig, String>)
    ensures
        match config {
            Ok(c) => restored(stored@) == Ok::<RadarInstallationConfig, Seq<char>>(c),
            Err(why) => restored(stored@) == Err::<RadarInstallationConfig, Seq<char>>(why@),
        },
{
    let bearing_alignment = match restore_bearing(stored.bearing_alignment.as_ref()) {
        Ok(b) => b,
        Err(why) => {
            return Err(why);
        },
    };
    match migrate_antenna_height(stored.antenna_height.as_ref()) {
        Ok(antenna_height) => Ok(RadarInstallationConfig { bearing_alignment, antenna_height }),
        Err(why) => Err(why),
    }
}

/// Reads a stored configuration, or tells why it cannot be read.
pub fn restore_config(stored: &StoredConfig) -> (config: Result<PluginConfig, String>)
    ensures
        match config {
            Ok(c) => restorable(stored@) && c@ == loaded_config(Some(stored@)),
            Err(why) => !restorable(stored@) && exists|id: Seq<char>| #[trigger]
                stored@.contains_key(id) && restored(stored@[id]) == Err::<
                    RadarInstallationConfig,
                    Seq<char>,
                >(why@),
        },
{
    let entries = stored.radars.entries();
    let mut out: Vec<(String, RadarInstallationConfig)> = Vec::new();
    let n: usize = entries.len();
    let mut i: usize = 0;
    while i < n
        invariant
            i <= n,
            n == entries@.len(),
            ascending(entries@),
            stored@ == entries_map(entries@),
            out@.len() == i,
            forall|k: int|
                0 <= k < i ==> restored((#[trigger] entries@[k]).1@) is Ok,
            forall|k: int|
                0 <= k < i ==> (#[trigger] out@[k]).0@ == entries@[k].0@ && out@[k].1@ == restored(
                    entries@[k].1@,
                )->Ok_0,
        decreases n - i,
    {
        match restore(&entries[i].1) {
            Ok(config) => {
                out.push((entries[i].0.clone(), config));
            },
            Err(why) => {
                proof {
                    lemma_entry_in_map(entries@, i as int);
                }
                return Err(why);
            },
        }
        i += 1;
    }
    proof {
        assert forall|id: Seq<char>| #[trigger] stored@.contains_key(id) implies restored(
            stored@[id],
        ) is Ok by {
            let k = choose|k: int| stands_under(entries@, id, k);
            lemma_entry_in_map(entries@, k);
        }
        lemma_entries_mapped(entries@, out@, |v: StoredView| restored(v)->Ok_0);
    }
    Ok(PluginConfig { radars: StringMap::from_entries(out) })
}

/// Loads the configuration from what is stored: an empty one where nothing is
/// stored, or where anything in it cannot be read.
pub fn load_config(stored: Option<&StoredConfig>) -> (config: PluginConfig)
    ensures
        config@ == loaded_config(
            match stored {
                Some(s) => Some(s@),
                None => None,
            },
        ),
{
    match stored {
        Some(s) => match restore_config(s) {
            Ok(config) => config,
            Err(_) => PluginConfig::default(),
        },
        None => PluginConfig::default(),
    }
}

impl PluginConfig {
    /// The configuration as it is stored.
    pub fn stored(&self) -> (stored: StoredConfig)
        ensures
            stored@ == stored_config(self@),
    {
        let entries = self.radars.entries();
        let mut out: Vec<(String, StoredInstallation)> = Vec::new();
        let n: usize = entries.len();
        let mut i: usize = 0;
        while i < n
            invariant
                i <= n,
                n == entries@.len(),
                out@.len() == i,
                forall|k: int|
                    0 <= k < i ==> (#[trigger] out@[k]).0@ == entries@[k].0@ && out@[k].1@
                        == stored_installation(entries@[k].1@),
            decreases n - i,
        {
            let config = entries[i].1;
            let installation = StoredInstallation {
                bearing_alignment: match config.bearing_alignment {
                    Some(degrees) => Some(Json::from_double(degrees)),
                    None => None,
                },
                antenna_height: match config.antenna_height {
                    Some(metres) => Some(Json::from_i32(metres)),
                    None => None,
                },
            };
            out.push((entries[i].0.clone(), installation));
            i += 1;
        }
        proof {
            lemma_entries_mapped(
                entries@,
                out@,
                |c: RadarInstallationConfig| stored_installation(c),
            );
        }
        StoredConfig { radars: StringMap::from_entries(out) }
    }
}

// ---------------------------------------------------------------------------
// Laws
// ---------------------------------------------------------------------------

/// The antenna height that a stored height comes back as. The heights 0, 1 and
/// 2 are taken for the categories of old; the others are brought into range.
pub open spec fn reloaded_height(metres: int) -> int {
    if metres == 0 {
        2
    } else if metres == 1 {
        5
    } else if metres == 2 {
        15
    } else if metres < 0 {
        0
    } else if metres > 100 {
        100
    } else {
        metres
    }
}

/// The installation that a stored one comes back as: the bearing unchanged,
/// unless it is not finite, and the height as [`reloaded_height`] says.
pub open spec fn reloaded(config: RadarInstallationConfig) -> RadarInstallationConfig {
    RadarInstallationConfig {
        bearing_alignment: match config.bearing_alignment {
            Some(degrees) => if degrees.nan() || degrees.infinite() {
                None
            } else {
                Some(degrees)
            },
            None => None,
        },
        antenna_height: match config.antenna_height {
            Some(metres) => Some(reloaded_height(metres as int) as i32),
            None => None,
        },
    }
}

/// What an integer that is stored as an antenna height comes back as.
pub proof fn law_stored_heights(n: i64)
    ensures
        migrated_height(Some(integer_json(n as int))) == Ok::<Option<i32>, Seq<char>>(
            Some(reloaded_height(n as int) as i32),
        ),
        3 <= n <= 100 ==> reloaded_height(n as int) == n,
{
}

/// A configuration that is saved comes back: every radar, and no other, with
/// the installation that [`reloaded`] says. Where nothing is stored, or
/// something that cannot be read, the configuration is empty.
pub proof fn law_saved_config_comes_back(config: Map<Seq<char>, RadarInstallationConfig>)
    ensures
        restorable(stored_config(config)),
        loaded_config(Some(stored_config(config))) == config.map_values(
            |c: RadarInstallationConfig| reloaded(c),
        ),
        loaded_config(None) == Map::<Seq<char>, RadarInstallationConfig>::empty(),
        forall|stored: Map<Seq<char>, StoredView>|
            !restorable(stored) ==> #[trigger] loaded_config(Some(stored)) == Map::<
                Seq<char>,
                RadarInstallationConfig,
            >::empty(),
{
    let stored = stored_config(config);
    assert forall|id: Seq<char>| #[trigger] stored.contains_key(id) implies restored(stored[id])
        == Ok::<RadarInstallationConfig, Seq<char>>(reloaded(config[id])) by {
        lemma_installation_comes_back(config[id]);
    }
    assert(loaded_config(Some(stored)) =~= config.map_values(
        |c: RadarInstallationConfig| reloaded(c),
    ));
}

proof fn lemma_installation_comes_back(config: RadarInstallationConfig)
    ensures
        restored(stored_installation(config)) == Ok::<RadarInstallationConfig, Seq<char>>(
            reloaded(config),
        ),
{
    if let Some(metres) = config.antenna_height {
        law_stored_heights(metres as i64);
    }
}

/// A configuration whose values are in range, with no height of 0, 1 or 2
/// metres, comes back as it was saved.
pub proof fn law_sound_config_comes_back_unchanged(config: Map<Seq<char>, RadarInstallationConfig>)
    requires
        config_in_range(config),
        forall|id: Seq<char>| #[trigger]
            config.contains_key(id) && config[id].antenna_height is Some
                ==> config[id].antenna_height->0 >= 3,
    ensures
        loaded_config(Some(stored_config(config))) == config,
{
    law_saved_config_comes_back(config);
    assert forall|id: Seq<char>| #[trigger] config.contains_key(id) implies reloaded(config[id])
        == config[id] by {
        if let Some(degrees) = config[id].bearing_alignment {
            law_magnitude_order(degrees, MAX_BEARING_ALIGNMENT as nat);
        }
    }
    assert(loaded_config(Some(stored_config(config))) =~= config);
}

/// A loaded configuration is in range where the stored bearing alignments are:
/// the heights always are.
pub proof fn law_loaded_config_in_range(stored: Map<Seq<char>, StoredView>)
    requires
        forall|id: Seq<char>| #[trigger]
            stored.contains_key(id) ==> match restored_bearing(stored[id].bearing_alignment) {
                Ok(Some(degrees)) => degrees.magnitude_at_most(MAX_BEARING_ALIGNMENT as nat),
                _ => true,
            },
    ensures
        config_in_range(loaded_config(Some(stored))),
{
    let loaded = loaded_config(Some(stored));
    assert forall|id: Seq<char>| #[trigger] loaded.contains_key(id) implies installation_in_range(
        loaded[id],
    ) by {
        assert(stored.contains_key(id));
    }
}

/// What a stored antenna height comes back as: the categories 0, 1 and 2 as 2, 5
/// and 15 metres, every other integer as the nearest height from 0 to 100, and a
/// number with a fraction cut to a whole one, as the nearest such height. Nothing
/// stored is nothing; what is no number cannot be read.
pub proof fn law_restored_heights(n: i64, d: Double, other: JsonView)
    requires
        !(other is Number),
    ensures
        ({
            let height = migrated_height(Some(integer_json(n as int)));
            &&& height matches Ok(Some(metres)) && {
                &&& n == 0 ==> metres == 2
                &&& n == 1 ==> metres == 5
                &&& n == 2 ==> metres == 15
                &&& 3 <= n <= 100 ==> metres == n
                &&& n < 0 ==> metres == 0
                &&& n > 100 ==> metres == 100
            }
        }),
        ({
            let height = migrated_height(Some(JsonView::Number(JsonNumber::Float(d))));
            let cut = d.truncated();
            &&& height matches Ok(Some(metres)) && {
                &&& 0 <= cut <= 100 ==> metres == cut
                &&& cut < 0 ==> metres == 0
                &&& cut > 100 ==> metres == 100
            }
        }),
        migrated_height(None) == Ok::<Option<i32>, Seq<char>>(None),
        migrated_height(Some(other)) == Err::<Option<i32>, Seq<char>>(
            "antenna height must be a number"@,
        ),
{
}

/// What a stored bearing alignment comes back as: a number as it is, and nothing,
/// or null, as nothing; anything else cannot be read.
pub proof fn law_restored_bearings(d: Double, n: i32, other: JsonView)
    requires
        !(other is Number),
        !(other is Null),
        -0x7fff_ffff < n,
    ensures
        restored_bearing(Some(JsonView::Number(JsonNumber::Float(d)))) == Ok::<
            Option<Double>,
            Seq<char>,
        >(Some(d)),
        restored_bearing(Some(integer_json(n as int))) matches Ok(Some(whole)) && whole.truncated()
            == n,
        restored_bearing(None) == Ok::<Option<Double>, Seq<char>>(None),
        restored_bearing(Some(JsonView::Null)) == Ok::<Option<Double>, Seq<char>>(None),
        restored_bearing(Some(other)) is Err,
{
    law_integers_are_read_back(n as i64);
}

/// An installation is restored from its two values, each by itself; it cannot be
/// read where one of them cannot.
pub proof fn law_restored(stored: StoredView)
    ensures
        restored(stored) is Ok <==> restored_bearing(stored.bearing_alignment) is Ok
            && migrated_height(stored.antenna_height) is Ok,
        restored(stored) matches Ok(config) ==> {
            &&& Ok::<Option<Double>, Seq<char>>(config.bearing_alignment) == restored_bearing(
                stored.bearing_alignment,
            )
            &&& Ok::<Option<i32>, Seq<char>>(config.antenna_height) == migrated_height(
                stored.antenna_height,
            )
        },
{
}

/// Loading gives every radar that is stored its own installation, where all that
/// is stored can be read, and none where anything cannot.
pub proof fn law_loaded_config(stored: Map<Seq<char>, StoredView>, id: Seq<char>)
    ensures
        restorable(stored) ==> {
            &&& loaded_config(Some(stored)).contains_key(id) <==> stored.contains_key(id)
            &&& stored.contains_key(id) ==> Ok::<RadarInstallationConfig, Seq<char>>(
                loaded_config(Some(stored))[id],
            ) == restored(stored[id])
        },
        stored.contains_key(id) && restored(stored[id]) is Err ==> !loaded_config(
            Some(stored),
        ).contains_key(id),
        loaded_config(None).len() == 0,
{
    assert(loaded_config(None) =~= Map::<Seq<char>, RadarInstallationConfig>::empty());
}

/// A saved configuration has every radar of the configuration and no other, each
/// with its bearing alignment as a number that reads back as it, and its antenna
/// height as the integer.
pub proof fn law_stored_config(config: Map<Seq<char>, RadarInstallationConfig>, id: Seq<char>)
    ensures
        stored_config(config).contains_key(id) <==> config.contains_key(id),
        config.contains_key(id) ==> ({
            let stored = stored_config(config)[id];
            &&& match config[id].bearing_alignment {
                Some(d) => stored.bearing_alignment matches Some(v) && (!d.nan() && !d.infinite()
                    ==> v.double() == Some(d)),
                None => stored.bearing_alignment is None,
            }
            &&& match config[id].antenna_height {
                Some(metres) => stored.antenna_height matches Some(v) && v.signed() == Some(
                    metres as i64,
                ),
                None => stored.antenna_height is None,
            }
        }),
{
    if config.contains_key(id) {
        if let Some(d) = config[id].bearing_alignment {
            law_doubles_are_read_back(d);
        }
        if let Some(metres) = config[id].antenna_height {
            law_integers_are_read_back(metres as i64);
        }
    }
}

/// The values of an installation are in range where the bearing alignment is at
/// most 180 degrees to either side and the antenna height from 0 to 100 metres.
pub proof fn law_ranges(config: RadarInstallationConfig)
    ensures
        installation_in_range(config) <==> {
            &&& config.bearing_alignment is None || config.bearing_alignment->0.magnitude_at_most(
                180,
            )
            &&& config.antenna_height is None || 0 <= config.antenna_height->0 <= 100
        },
{
}

} // verus!
