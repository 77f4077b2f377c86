# signalk_radar

The logic of a SignalK plugin for marine radars of several brands: Furuno,
Navico, Raymarine and Garmin. It is written in Verus, and every function is
proved against its contract.

## Layout

- `src/` is the verified library. It does no I/O. What the host of the plugin is
  asked to do is a value (`signalk_ffi::HostCall`), what the radars' controllers
  are asked to do is a value (`commands::Command`), and what they answer comes in
  as an argument. Each contract speaks of models: sequences, maps and integers.
- `tests/` runs the library on concrete values.
- `app/` is the plugin around the library: it links the host's functions,
  performs calls and commands, and serialises.

## What is proved

The provider's methods are functions on its model, `ProviderView`; what each does
to the model, and each error it gives, is stated exactly. `provider_laws` adds
what holds over several requests: a stored antenna height or bearing alignment is
read back, no request takes one that is in range out of it, a refused request
stores nothing, a request concerns one radar only, and every radar that was found
has a controller afterwards.

`config` states what a saved configuration comes back as. A loaded one is in range
where the stored bearing alignments are, since heights are brought into range. An
installation that is handed in whole is kept as it is, in range or not.

`spoke_receiver` proves that merging loses no target and makes none up, that no
spoke is lost or used twice, and that the cut of spokes into frames does not
matter.

## What is trusted

A few functions of `serde_json` and of the standard library are called behind
items whose contracts are taken as given. Each is marked
`#[verifier::external_body]` or is an `assume_specification`; its comment says
what is claimed. They stand in `json` and `text`.

Doubles are held as their bit patterns (`double::Double`) and read there with
integer arithmetic.
