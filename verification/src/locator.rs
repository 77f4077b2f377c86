//! What the radar locator tells of the radars on the network.

use vstd::prelude::*;

verus! {

/// The makers of the radars that are known.
#[derive(Clone, Copy, PartialEq, Eq, Structural, Debug)]
pub enum Brand {
    Furuno,
    Navico,
    Raymarine,
    Garmin,
}

/// A radar that was found on the network.
#[derive(Debug)]
pub struct RadarDiscovery {
    pub brand: Brand,
    /// The brand as it is written in ids, such as `Furuno`.
    pub brand_name: String,
    pub name: String,
    /// Where the radar is reached, an address that a port may follow behind a
    /// colon.
    pub address: String,
    pub model: Option<String>,
    pub serial_number: Option<String>,
    pub spokes_per_revolution: u16,
    pub max_spoke_len: u16,
    pub command_port: u16,
    pub data_port: u16,
}

/// The model of a discovery.
pub struct DiscoveryView {
    pub brand: Brand,
    pub brand_name: Seq<char>,
    pub name: Seq<char>,
    pub address: Seq<char>,
    pub model: Option<Seq<char>>,
    pub serial_number: Option<Seq<char>>,
    pub spokes_per_revolution: u16,
    pub max_spoke_len: u16,
    pub command_port: u16,
    pub data_port: u16,
}

/// The model of a text that may be missing.
pub open spec fn optional_text(text: Option<String>) -> Option<Seq<char>> {
    match text {
        Some(s) => Some(s@),
        None => None,
    }
}

impl View for RadarDiscovery {
    type V = DiscoveryView;

    open spec fn view(&self) -> DiscoveryView {
        DiscoveryView {
            brand: self.brand,
            brand_name: self.brand_name@,
            name: self.name@,
            address: self.address@,
            model: optional_text(self.model),
            serial_number: optional_text(self.serial_number),
            spokes_per_revolution: self.spokes_per_revolution,
            max_spoke_len: self.max_spoke_len,
            command_port: self.command_port,
            data_port: self.data_port,
        }
    }
}

/// The models of a run of discoveries.
pub open spec fn discoveries_view(radars: Seq<RadarDiscovery>) -> Seq<DiscoveryView> {
    radars.map_values(|d: RadarDiscovery| d@)
}

/// A copy of a text that may be missing.
pub fn clone_text(text: &Option<String>) -> (copy: Option<String>)
    ensures
        optional_text(copy) == optional_text(*text),
{
    match text {
        Some(s) => Some(s.clone()),
        None => None,
    }
}

impl Clone for RadarDiscovery {
    fn clone(&self) -> (copy: RadarDiscovery)
        ensures
            copy@ == self@,
    {
        RadarDiscovery {
            brand: self.brand,
            brand_name: self.brand_name.clone(),
            name: self.name.clone(),
            address: self.address.clone(),
            model: clone_text(&self.model),
            serial_number: clone_text(&self.serial_number),
            spokes_per_revolution: self.spokes_per_revolution,
            max_spoke_len: self.max_spoke_len,
            command_port: self.command_port,
            data_port: self.data_port,
        }
    }
}

/// What came out of looking for radars.
#[derive(Debug)]
pub enum LocatorEvent {
    /// A radar was found that was not known before.
    RadarDiscovered(RadarDiscovery),
    /// Anything else.
    Other,
}

/// The radars that were found, in the order in which they were.
pub open spec fn discovered(events: Seq<LocatorEvent>) -> Seq<DiscoveryView>
    decreases events.len(),
{
    if events.len() == 0 {
        Seq::empty()
    } else {
        let before = discovered(events.drop_last());
        match events.last() {
            LocatorEvent::RadarDiscovered(d) => before.push(d@),
            LocatorEvent::Other => before,
        }
    }
}

} // verus!
