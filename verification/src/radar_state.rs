//! The state of a radar as clients see it: ids, names, the colour legend and
//! the basic controls.

use crate::json::{holds, lacks, Json, JsonView};
use crate::locator::{clone_text, optional_text, Brand, DiscoveryView, RadarDiscovery};
use crate::spoke_receiver::FURUNO_OUTPUT_SPOKES;
use crate::string_map::{Copied, StringMap};
use crate::text::{chars_of, decimal, decimal_text, hex_byte, lemma_decimal_round_trip, push_hex};
use vstd::prelude::*;
use vstd::string::*;

verus! {

/// A character that may stand in JSON and in a SignalK path as it is.
pub open spec fn safe_char(c: char) -> bool {
    ||| 'a' <= c <= 'z'
    ||| 'A' <= c <= 'Z'
    ||| '0' <= c <= '9'
    ||| c == '-'
    ||| c == '_'
}

/// A text without the characters that are not safe.
pub open spec fn sanitized(s: Seq<char>) -> Seq<char> {
    s.filter(|c: char| safe_char(c))
}

/// Drops the characters that are not safe for JSON and SignalK paths.
pub fn sanitize_string(s: &str) -> (safe: String)
    ensures
        safe@ == sanitized(s@),
{
    let chars = chars_of(s);
    let ghost p = |c: char| safe_char(c);
    let mut safe = String::new();
    let n: usize = chars.len();
    let mut i: usize = 0;
    assert(chars@.take(0).filter(p) =~= Seq::<char>::empty()) by {
        reveal(Seq::filter);
    }
    while i < n
        invariant
            i <= n,
            n == chars@.len(),
            p == |c: char| safe_char(c),
            safe@ == chars@.take(i as int).filter(p),
        decreases n - i,
    {
        let c = chars[i];
        proof {
            reveal(Seq::filter);
            assert(chars@.take(i + 1).drop_last() =~= chars@.take(i as int));
        }
        if ('a' <= c && c <= 'z') || ('A' <= c && c <= 'Z') || ('0' <= c && c <= '9') || c == '-'
            || c == '_' {
            safe.push(c);
        }
        i += 1;
    }
    assert(chars@.take(n as int) =~= s@);
    safe
}

/// An entry of the colour legend.
#[derive(Debug)]
pub struct LegendEntry {
    pub color: String,
}

impl View for LegendEntry {
    type V = Seq<char>;

    open spec fn view(&self) -> Seq<char> {
        self.color@
    }
}

impl Copied for LegendEntry {
    fn copied(&self) -> (copy: LegendEntry) {
        LegendEntry { color: self.color.clone() }
    }
}

impl Clone for LegendEntry {
    fn clone(&self) -> (copy: LegendEntry)
        ensures
            copy@ == self@,
    {
        self.copied()
    }
}

/// The colour for an echo of strength `i`, as red, green and blue. Nothing is
/// black. Weak echoes are dark green; from 16 on they go over green to yellow,
/// from 32 on to orange and from 48 on to red, where they stay from 63 on.
pub open spec fn legend_rgb(i: int) -> (int, int, int) {
    if i <= 0 {
        (0, 0, 0)
    } else if i <= 15 {
        (0, 50 + (i - 1) * 100 / 14, 0)
    } else if i <= 31 {
        ((i - 16) * 200 / 15, 150 + (i - 16) * 55 / 15, 0)
    } else if i <= 47 {
        (200 + (i - 32) * 55 / 15, (2700 - (i - 32) * 100) / 15, 0)
    } else if i <= 63 {
        (255, (1200 - (i - 48) * 80) / 15, 0)
    } else {
        (255, 0, 0)
    }
}

/// A colour in the notation of style sheets, such as `#00FF00`.
pub open spec fn color_text(rgb: (int, int, int)) -> Seq<char> {
    "#"@ + hex_byte(rgb.0 as u8) + hex_byte(rgb.1 as u8) + hex_byte(rgb.2 as u8)
}

/// The colours of the echoes below strength `n`, under their decimal numbers.
pub open spec fn legend_below(n: nat) -> Map<Seq<char>, Seq<char>>
    decreases n,
{
    if n == 0 {
        Map::empty()
    } else {
        let i = (n - 1) as nat;
        legend_below(i).insert(decimal_text(i), color_text(legend_rgb(i as int)))
    }
}

/// The colour for an echo of strength `i`.
pub fn legend_color(i: u16) -> (color: String)
    ensures
        color@ == color_text(legend_rgb(i as int)),
{
    let (r, g, b): (u16, u16, u16) = if i == 0 {
        (0, 0, 0)
    } else if i <= 15 {
        (0, 50 + (i - 1) * 100 / 14, 0)
    } else if i <= 31 {
        ((i - 16) * 200 / 15, 150 + (i - 16) * 55 / 15, 0)
    } else if i <= 47 {
        (200 + (i - 32) * 55 / 15, (2700 - (i - 32) * 100) / 15, 0)
    } else if i <= 63 {
        (255, (1200 - (i - 48) * 80) / 15, 0)
    } else {
        (255, 0, 0)
    };
    let mut color = "#".to_owned();
    push_hex(&mut color, r as u8);
    push_hex(&mut color, g as u8);
    push_hex(&mut color, b as u8);
    color
}

/// The legend for all strengths that a byte can hold.
pub fn default_legend() -> (legend: StringMap<LegendEntry>)
    ensures
        legend@ == legend_below(256),
{
    let mut legend: StringMap<LegendEntry> = StringMap::new();
    let mut i: u16 = 0;
    while i < 256
        invariant
            i <= 256,
            legend@ == legend_below(i as nat),
        decreases 256 - i,
    {
        let color = legend_color(i);
        legend.insert(decimal(i as u64), LegendEntry { color });
        i += 1;
    }
    legend
}

/// The control that shows the status.
pub open spec fn status_control() -> JsonView {
    JsonView::Object(
        seq![("isReadOnly"@, JsonView::Bool(true)), ("name"@, JsonView::Text("Status"@))],
    )
}

/// The control that switches between transmitting and standing by.
pub open spec fn power_control() -> JsonView {
    JsonView::Object(
        seq![
            (
                "descriptions"@,
                JsonView::Object(
                    seq![
                        ("standby"@, JsonView::Text("Standby"@)),
                        ("transmit"@, JsonView::Text("Transmit"@)),
                    ],
                ),
            ),
            ("name"@, JsonView::Text("Power"@)),
            (
                "validValues"@,
                JsonView::Array(seq![JsonView::Text("transmit"@), JsonView::Text("standby"@)]),
            ),
        ],
    )
}

/// The basic controls of every radar.
pub open spec fn basic_controls() -> Map<Seq<char>, JsonView> {
    Map::<Seq<char>, JsonView>::empty().insert("0"@, status_control()).insert(
        "1"@,
        power_control(),
    )
}

/// The basic controls of every radar.
pub fn default_controls() -> (controls: StringMap<Json>)
    ensures
        controls@ == basic_controls(),
{
    let mut controls: StringMap<Json> = StringMap::new();
    let status = Json::Object(
        vec![("isReadOnly".to_owned(), Json::Bool(true)), ("name".to_owned(), Json::from_text("Status"))],
    );
    proof {
        let v = status->Object_0@;
        assert(status@->Object_0 =~= seq![(v[0].0@, v[0].1@), (v[1].0@, v[1].1@)]);
        assert(status@->Object_0 =~= status_control()->Object_0);
    }
    controls.insert("0".to_owned(), status);
    let descriptions = Json::Object(
        vec![
            ("standby".to_owned(), Json::from_text("Standby")),
            ("transmit".to_owned(), Json::from_text("Transmit")),
        ],
    );
    let valid = Json::Array(vec![Json::from_text("transmit"), Json::from_text("standby")]);
    proof {
        let v = descriptions->Object_0@;
        assert(descriptions@->Object_0 =~= seq![(v[0].0@, v[0].1@), (v[1].0@, v[1].1@)]);
        assert(descriptions@->Object_0 =~= power_control()->Object_0[0].1->Object_0);
        assert(valid@->Array_0 =~= power_control()->Object_0[2].1->Array_0);
    }
    let power = Json::Object(
        vec![
            ("descriptions".to_owned(), descriptions),
            ("name".to_owned(), Json::from_text("Power")),
            ("validValues".to_owned(), valid),
        ],
    );
    proof {
        let v = power->Object_0@;
        assert(power@->Object_0 =~= seq![
            (v[0].0@, v[0].1@),
            (v[1].0@, v[1].1@),
            (v[2].0@, v[2].1@),
        ]);
        assert(power@->Object_0 =~= power_control()->Object_0);
    }
    controls.insert("1".to_owned(), power);
    controls
}

/// The id of a radar: its brand and its name without unsafe characters.
pub open spec fn radar_id(d: DiscoveryView) -> Seq<char> {
    d.brand_name + "-"@ + sanitized(d.name)
}

/// The id of a radar.
pub fn radar_id_of(d: &RadarDiscovery) -> (id: String)
    ensures
        id@ == radar_id(d@),
{
    let mut id = d.brand_name.clone();
    id.append("-");
    id.append(sanitize_string(d.name.as_str()).as_str());
    id
}

/// The state of a radar for clients.
#[derive(Debug)]
pub struct RadarState {
    pub id: String,
    pub name: String,
    pub brand: String,
    pub model: Option<String>,
    pub status: String,
    pub spokes_per_revolution: u16,
    pub max_spoke_len: u16,
    pub stream_url: Option<String>,
    pub control_url: Option<String>,
    pub controls: StringMap<Json>,
    pub legend: StringMap<LegendEntry>,
}

/// The model of a radar's state.
pub struct RadarStateView {
    pub id: Seq<char>,
    pub name: Seq<char>,
    pub brand: Seq<char>,
    pub model: Option<Seq<char>>,
    pub status: Seq<char>,
    pub spokes_per_revolution: u16,
    pub max_spoke_len: u16,
    pub stream_url: Option<Seq<char>>,
    pub control_url: Option<Seq<char>>,
    pub controls: Map<Seq<char>, JsonView>,
    pub legend: Map<Seq<char>, Seq<char>>,
}

impl View for RadarState {
    type V = RadarStateView;

    open spec fn view(&self) -> RadarStateView {
        RadarStateView {
            id: self.id@,
            name: self.name@,
            brand: self.brand@,
            model: optional_text(self.model),
            status: self.status@,
            spokes_per_revolution: self.spokes_per_revolution,
            max_spoke_len: self.max_spoke_len,
            stream_url: optional_text(self.stream_url),
            control_url: optional_text(self.control_url),
            controls: self.controls@,
            legend: self.legend@,
        }
    }
}

impl Clone for RadarState {
    fn clone(&self) -> (copy: RadarState)
        ensures
            copy@ == self@,
    {
        RadarState {
            id: self.id.clone(),
            name: self.name.clone(),
            brand: self.brand.clone(),
            model: clone_text(&self.model),
            status: self.status.clone(),
            spokes_per_revolution: self.spokes_per_revolution,
            max_spoke_len: self.max_spoke_len,
            stream_url: clone_text(&self.stream_url),
            control_url: clone_text(&self.control_url),
            controls: self.controls.clone(),
            legend: self.legend.clone(),
        }
    }
}

/// The state that a discovery gives: standing by, with the default legend and
/// the basic controls. A Furuno radar is shown with the spokes that are left
/// after merging. Clients stream and control over the host itself, so there
/// are no addresses for either.
pub open spec fn radar_state(d: DiscoveryView) -> RadarStateView {
    RadarStateView {
        id: radar_id(d),
        name: sanitized(d.name),
        brand: d.brand_name,
        model: match d.model {
            Some(m) => Some(sanitized(m)),
            None => None,
        },
        status: "standby"@,
        spokes_per_revolution: if d.brand == Brand::Furuno {
            FURUNO_OUTPUT_SPOKES
        } else {
            d.spokes_per_revolution
        },
        max_spoke_len: d.max_spoke_len,
        stream_url: None,
        control_url: None,
        controls: basic_controls(),
        legend: legend_below(256),
    }
}

impl RadarState {
    /// The state that a discovery gives.
    pub fn from(d: &RadarDiscovery) -> (state: RadarState)
        ensures
            state@ == radar_state(d@),
    {
        RadarState {
            id: radar_id_of(d),
            name: sanitize_string(d.name.as_str()),
            brand: d.brand_name.clone(),
            model: match &d.model {
                Some(m) => Some(sanitize_string(m.as_str())),
                None => None,
            },
            status: "standby".to_owned(),
            spokes_per_revolution: if d.brand == Brand::Furuno {
                FURUNO_OUTPUT_SPOKES
            } else {
                d.spokes_per_revolution
            },
            max_spoke_len: d.max_spoke_len,
            stream_url: None,
            control_url: None,
            controls: default_controls(),
            legend: default_legend(),
        }
    }
}

/// A sanitized text holds safe characters only, and a text of safe characters
/// is left as it is; so to sanitize twice is to sanitize once.
pub proof fn law_sanitized(s: Seq<char>)
    ensures
        all_safe(sanitized(s)),
        all_safe(s) ==> sanitized(s) == s,
        sanitized(sanitized(s)) == sanitized(s),
{
    lemma_sanitized_is_safe(s);
    if all_safe(s) {
        lemma_safe_is_kept(s);
    }
    lemma_safe_is_kept(sanitized(s));
}

/// Every character is safe.
pub open spec fn all_safe(s: Seq<char>) -> bool {
    forall|i: int| 0 <= i < s.len() ==> safe_char(#[trigger] s[i])
}

proof fn lemma_sanitized_is_safe(s: Seq<char>)
    ensures
        all_safe(sanitized(s)),
    decreases s.len(),
{
    reveal(Seq::filter);
    if s.len() > 0 {
        lemma_sanitized_is_safe(s.drop_last());
    }
}

proof fn lemma_safe_is_kept(s: Seq<char>)
    requires
        all_safe(s),
    ensures
        sanitized(s) == s,
    decreases s.len(),
{
    reveal(Seq::filter);
    if s.len() > 0 {
        lemma_safe_is_kept(s.drop_last());
        assert(safe_char(s[s.len() - 1]));
        assert(s.drop_last().push(s.last()) =~= s);
    } else {
        assert(sanitized(s) =~= s);
    }
}

/// The legend has an entry for each strength that a byte can hold, with its
/// colour, and no other entry.
pub proof fn law_legend(key: Seq<char>, i: nat)
    ensures
        i < 256 ==> legend_below(256).contains_key(decimal_text(i)),
        i < 256 ==> legend_below(256)[decimal_text(i)] == color_text(legend_rgb(i as int)),
        legend_below(256).contains_key(key) ==> exists|k: nat|
            k < 256 && key == #[trigger] decimal_text(k),
{
    lemma_legend(256, key, i);
}

proof fn lemma_legend(n: nat, key: Seq<char>, i: nat)
    ensures
        i < n ==> legend_below(n).contains_key(decimal_text(i)),
        i < n ==> legend_below(n)[decimal_text(i)] == color_text(legend_rgb(i as int)),
        legend_below(n).contains_key(key) ==> exists|k: nat|
            k < n && key == #[trigger] decimal_text(k),
    decreases n,
{
    if n > 0 {
        let m = (n - 1) as nat;
        lemma_legend(m, key, i);
        if i < m {
            lemma_decimal_round_trip(i);
            lemma_decimal_round_trip(m);
        }
        if legend_below(n).contains_key(key) && key != decimal_text(m) {
            let k = choose|k: nat| k < m && key == #[trigger] decimal_text(k);
            assert(k < n && key == decimal_text(k));
        }
    }
}

/// The parts of every colour of the legend fit into a byte, and none has any
/// blue.
pub proof fn law_legend_colors(i: int)
    requires
        0 <= i < 256,
    ensures
        0 <= legend_rgb(i).0 <= 255,
        0 <= legend_rgb(i).1 <= 255,
        legend_rgb(i).2 == 0,
{
}

/// What is kept of a text for an id: each letter from A to Z in either case, each
/// digit, hyphen and underscore, in order, and nothing else.
pub proof fn law_sanitized_characters(s: Seq<char>, c: char)
    ensures
        sanitized(Seq::empty()).len() == 0,
        ({
            let kept = 'a' <= c <= 'z' || 'A' <= c <= 'Z' || '0' <= c <= '9' || c == '-' || c == '_';
            &&& kept ==> sanitized(s.push(c)) == sanitized(s).push(c)
            &&& !kept ==> sanitized(s.push(c)) == sanitized(s)
        }),
{
    reveal(Seq::filter);
    assert(s.push(c).drop_last() =~= s);
    assert(sanitized(s.push(c)) =~= if safe_char(c) {
        sanitized(s).push(c)
    } else {
        sanitized(s)
    });
}

/// The colours of the legend from weak to strong echoes: nothing is black. Weak
/// echoes have no red, and their green grows evenly from 50 to 150; medium ones
/// go evenly on to a red of 200 and a green of 205; stronger ones from a red of
/// 200 and a green of 180 to 255 and 80; strong ones have a red of 255, and their
/// green falls evenly from 80 to nothing. Parts are rounded down. From 63 on
/// nothing changes.
pub proof fn law_legend_gradient(i: int)
    ensures
        ({
            let (r, g, b) = legend_rgb(i);
            &&& i == 0 ==> r == 0 && g == 0
            &&& 1 <= i <= 15 ==> {
                &&& r == 0
                &&& (g - 50) * 14 <= (i - 1) * 100 < (g - 49) * 14
            }
            &&& 16 <= i <= 31 ==> {
                &&& r * 15 <= (i - 16) * 200 < (r + 1) * 15
                &&& (g - 150) * 15 <= (i - 16) * 55 < (g - 149) * 15
            }
            &&& 32 <= i <= 47 ==> {
                &&& (r - 200) * 15 <= (i - 32) * 55 < (r - 199) * 15
                &&& g * 15 <= 180 * 15 - (i - 32) * 100 < (g + 1) * 15
            }
            &&& 48 <= i <= 63 ==> {
                &&& r == 255
                &&& g * 15 <= 80 * 15 - (i - 48) * 80 < (g + 1) * 15
            }
            &&& 63 <= i ==> r == 255 && g == 0
            &&& b == 0
        }),
{
}

/// A colour is written as a hash sign and the two hexadecimal digits of each of
/// its parts: red, green and blue.
pub proof fn law_color_text(r: u8, g: u8, b: u8)
    ensures
        ({
            let text = color_text((r as int, g as int, b as int));
            &&& text.len() == 7
            &&& text[0] == '#'
            &&& text.subrange(1, 3) == hex_byte(r)
            &&& text.subrange(3, 5) == hex_byte(g)
            &&& text.subrange(5, 7) == hex_byte(b)
        }),
{
    reveal_strlit("#");
    let text = color_text((r as int, g as int, b as int));
    assert(text.subrange(1, 3) =~= hex_byte(r));
    assert(text.subrange(3, 5) =~= hex_byte(g));
    assert(text.subrange(5, 7) =~= hex_byte(b));
}

/// Every radar has two basic controls: a status that can only be read, and power,
/// which is to transmit or to stand by.
pub proof fn law_basic_controls(name: Seq<char>)
    ensures
        basic_controls().contains_key(name) <==> name == "0"@ || name == "1"@,
        holds(basic_controls()["0"@], "name"@, JsonView::Text("Status"@)),
        holds(basic_controls()["0"@], "isReadOnly"@, JsonView::Bool(true)),
        holds(basic_controls()["1"@], "name"@, JsonView::Text("Power"@)),
        lacks(basic_controls()["1"@], "isReadOnly"@),
        holds(
            basic_controls()["1"@],
            "validValues"@,
            JsonView::Array(seq![JsonView::Text("transmit"@), JsonView::Text("standby"@)]),
        ),
        exists|texts: JsonView| #[trigger]
            holds(basic_controls()["1"@], "descriptions"@, texts) && holds(
                texts,
                "transmit"@,
                JsonView::Text("Transmit"@),
            ) && holds(texts, "standby"@, JsonView::Text("Standby"@)),
{
    reveal_strlit("0");
    reveal_strlit("1");
    reveal_strlit("name");
    reveal_strlit("isReadOnly");
    reveal_strlit("validValues");
    reveal_strlit("descriptions");
    reveal_strlit("transmit");
    reveal_strlit("standby");
    assert("0"@[0] == '0' && "1"@[0] == '1');
    assert("name"@.len() == 4 && "isReadOnly"@.len() == 10 && "validValues"@.len() == 11
        && "descriptions"@.len() == 12);
    assert("transmit"@.len() == 8 && "standby"@.len() == 7);
    let status = basic_controls()["0"@]->Object_0;
    assert(status[0] == ("isReadOnly"@, JsonView::Bool(true)));
    assert(status[1] == ("name"@, JsonView::Text("Status"@)));
    let power = basic_controls()["1"@]->Object_0;
    let texts = power[0].1;
    assert(power[0] == ("descriptions"@, texts));
    assert(power[1] == ("name"@, JsonView::Text("Power"@)));
    assert(power[2] == ("validValues"@, power[2].1));
    assert(texts->Object_0[0] == ("standby"@, JsonView::Text("Standby"@)));
    assert(texts->Object_0[1] == ("transmit"@, JsonView::Text("Transmit"@)));
    assert(holds(basic_controls()["1"@], "descriptions"@, texts));
}

/// What clients are told of a radar: it stands by, under the id that is made of
/// its brand and its name, with the name, the brand and the model that were
/// found. A Furuno radar has 512 spokes in a revolution, whatever was found, and
/// any other those that were found. There is nothing to stream from or to control
/// over but the host.
pub proof fn law_radar_state(d: DiscoveryView, m: Seq<char>)
    ensures
        ({
            let state = radar_state(d);
            &&& state.id == d.brand_name + seq!['-'] + state.name
            &&& state.name == sanitized(d.name)
            &&& state.brand == d.brand_name
            &&& d.model is None ==> state.model is None
            &&& d.model == Some(m) ==> state.model == Some(sanitized(m))
            &&& state.status == "standby"@
            &&& d.brand == Brand::Furuno ==> state.spokes_per_revolution == 512
            &&& d.brand != Brand::Furuno ==> state.spokes_per_revolution == d.spokes_per_revolution
            &&& state.max_spoke_len == d.max_spoke_len
            &&& state.stream_url is None
            &&& state.control_url is None
            &&& state.controls == basic_controls()
            &&& state.legend == legend_below(256)
        }),
        radar_state(d).id == radar_id(d),
{
    reveal_strlit("-");
    assert("-"@ =~= seq!['-']);
}

} // verus!
