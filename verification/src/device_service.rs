//! Audio driver selection and device enumeration decisions.
//!
//! The application probes the audio host and hands each device over as a
//! [`DeviceProbe`]; this module decides which driver is selected, which host
//! backend serves it, which devices are listed, and which device an id names.
use vstd::prelude::*;
use crate::file_service::{string_result, string_views, unit_result};
use crate::text::{eq_ignore_ascii_case, eq_ignore_ascii_case_exec};

verus! {

/// A device as shown to the user.
pub struct AudioDeviceDto {
    pub id: String,
    pub name: String,
    pub sample_rate: u32,
}

impl View for AudioDeviceDto {
    /// `(id, name, sample_rate)`.
    type V = (Seq<char>, Seq<char>, u32);

    open spec fn view(&self) -> (Seq<char>, Seq<char>, u32) {
        (self.id@, self.name@, self.sample_rate)
    }
}

/// What the audio host reports about one device: its id (as the host's debug
/// text), its name, and the sample rates of its default input and output
/// configurations; `None` where the host gave an error.
pub struct DeviceProbe {
    pub id: Option<String>,
    pub name: Option<String>,
    pub input_sample_rate: Option<u32>,
    pub output_sample_rate: Option<u32>,
}

/// The name of the platform's default driver.
pub open spec fn default_driver() -> Seq<char> {
    "Default"@
}

/// The name of the ASIO driver, offered on Windows only.
pub open spec fn asio_driver() -> Seq<char> {
    "ASIO"@
}

/// The drivers offered on a platform.
pub open spec fn available_drivers(windows: bool) -> Seq<Seq<char>> {
    if windows {
        seq![default_driver(), asio_driver()]
    } else {
        seq![default_driver()]
    }
}

/// The canonical spelling of a driver name, compared ignoring ASCII case.
pub open spec fn normalized_driver(windows: bool, driver: Seq<char>) -> Option<Seq<char>> {
    if eq_ignore_ascii_case(driver, default_driver()) {
        Some(default_driver())
    } else if windows && eq_ignore_ascii_case(driver, asio_driver()) {
        Some(asio_driver())
    } else {
        None
    }
}

/// The host backend that serves a driver.
pub enum HostRequest {
    /// The platform's default host.
    Default,
    /// The host whose backend is named `name` (compared ignoring ASCII case);
    /// when it cannot be used and `fall_back_to_default` holds, the default
    /// host serves instead.
    Backend { name: String, fall_back_to_default: bool },
}

/// `HostRequest` seen through the backend name's characters.
pub open spec fn host_request_view(r: HostRequest) -> Option<(Seq<char>, bool)> {
    match r {
        HostRequest::Default => None,
        HostRequest::Backend { name, fall_back_to_default } => Some((name@, fall_back_to_default)),
    }
}

/// The host backend for `driver`: ASIO on Windows for the ASIO driver, WASAPI
/// (else the default host) for any other driver on Windows, and the default
/// host elsewhere.
pub open spec fn host_for_driver_spec(windows: bool, driver: Seq<char>) -> Option<(Seq<char>, bool)> {
    if windows {
        if eq_ignore_ascii_case(driver, asio_driver()) {
            Some(("Asio"@, false))
        } else {
            Some(("Wasapi"@, true))
        }
    } else {
        None
    }
}

/// The first host whose backend name matches `backend`, ignoring ASCII case.
pub open spec fn host_index_spec(names: Seq<Seq<char>>, backend: Seq<char>) -> Result<int, Seq<char>> {
    if exists|i: int| 0 <= i < names.len() && eq_ignore_ascii_case(#[trigger] names[i], backend) {
        Ok(
            choose|i: int|
                0 <= i < names.len() && eq_ignore_ascii_case(#[trigger] names[i], backend)
                    && forall|j: int| 0 <= j < i ==> !eq_ignore_ascii_case(#[trigger] names[j], backend),
        )
    } else {
        Err(backend + " host is not available"@)
    }
}

/// The user-facing record of a device at `sample_rate`, when the host gave
/// both its name and its id.
pub open spec fn device_dto(p: DeviceProbe, sample_rate: u32) -> Option<(Seq<char>, Seq<char>, u32)> {
    match (p.id, p.name) {
        (Some(id), Some(name)) => Some((id@, name@, sample_rate)),
        _ => None,
    }
}

/// A device listed as an input, at its input rate.
pub open spec fn input_dto() -> spec_fn(DeviceProbe) -> Option<(Seq<char>, Seq<char>, u32)> {
    |p: DeviceProbe|
        match p.input_sample_rate {
            Some(r) => device_dto(p, r),
            None => None,
        }
}

/// A device listed as an output, at its output rate.
pub open spec fn output_dto() -> spec_fn(DeviceProbe) -> Option<(Seq<char>, Seq<char>, u32)> {
    |p: DeviceProbe|
        match p.output_sample_rate {
            Some(r) => device_dto(p, r),
            None => None,
        }
}

/// A device listed for ASIO, which needs both directions, at the lower of its
/// two rates.
pub open spec fn duplex_dto() -> spec_fn(DeviceProbe) -> Option<(Seq<char>, Seq<char>, u32)> {
    |p: DeviceProbe|
        match (p.input_sample_rate, p.output_sample_rate) {
            (Some(i), Some(o)) => device_dto(p, if i <= o { i } else { o }),
            _ => None,
        }
}

/// Each way of listing a device keeps its id and name, and gives it the
/// right rate: the input rate in an input list, the output rate in an output
/// list, and the lower of the two in the duplex list used under ASIO.
pub proof fn lemma_listed_device_rates(p: DeviceProbe)
    requires
        p.id is Some,
        p.name is Some,
    ensures
        p.input_sample_rate matches Some(i) ==> input_dto()(p) == Some((p.id->0@, p.name->0@, i)),
        p.output_sample_rate matches Some(o) ==> output_dto()(p) == Some((p.id->0@, p.name->0@, o)),
        p.input_sample_rate is Some && p.output_sample_rate is Some ==> {
            let i = p.input_sample_rate->0;
            let o = p.output_sample_rate->0;
            &&& duplex_dto()(p) matches Some((id, name, rate))
            &&& id == p.id->0@
            &&& name == p.name->0@
            &&& rate <= i
            &&& rate <= o
            &&& (rate == i || rate == o)
        },
{
}

/// A device whose id or name the host could not report is in no list.
pub proof fn lemma_unnamed_devices_not_listed(p: DeviceProbe)
    requires
        p.id is None || p.name is None,
    ensures
        input_dto()(p) is None,
        output_dto()(p) is None,
        duplex_dto()(p) is None,
{
}

/// Under ASIO the default device is the first device that has both an
/// input and an output configuration, and there is an error exactly when no
/// device has both.
pub proof fn lemma_asio_default_is_first_duplex(
    all_devices: Seq<DeviceProbe>,
    has_default_input: bool,
    has_default_output: bool,
)
    ensures
        match default_devices_spec(true, all_devices, has_default_input, has_default_output) {
            Ok(Some(i)) => {
                &&& 0 <= i < all_devices.len()
                &&& all_devices[i].input_sample_rate is Some
                &&& all_devices[i].output_sample_rate is Some
                &&& forall|j: int|
                    0 <= j < i ==> !((#[trigger] all_devices[j]).input_sample_rate is Some
                        && all_devices[j].output_sample_rate is Some)
            },
            Ok(None) => false,
            Err(_) => forall|j: int|
                0 <= j < all_devices.len() ==> !((#[trigger] all_devices[j]).input_sample_rate is Some
                    && all_devices[j].output_sample_rate is Some),
        },
{
    if exists|i: int| 0 <= i < all_devices.len() && is_duplex(#[trigger] all_devices[i]) {
        lemma_first_duplex_exists(all_devices);
        let i = choose|i: int|
            0 <= i < all_devices.len() && is_duplex(#[trigger] all_devices[i])
                && forall|j: int| 0 <= j < i ==> !is_duplex(#[trigger] all_devices[j]);
        assert forall|j: int| 0 <= j < i implies !((#[trigger] all_devices[j]).input_sample_rate is Some
            && all_devices[j].output_sample_rate is Some) by {
            assert(!is_duplex(all_devices[j]));
        }
    } else {
        assert forall|j: int| 0 <= j < all_devices.len() implies !((#[trigger] all_devices[j]).input_sample_rate is Some
            && all_devices[j].output_sample_rate is Some) by {
            assert(!is_duplex(all_devices[j]));
        }
    }
}

/// Where some device is duplex, there is a first one.
proof fn lemma_first_duplex_exists(all_devices: Seq<DeviceProbe>)
    requires
        exists|i: int| 0 <= i < all_devices.len() && is_duplex(#[trigger] all_devices[i]),
    ensures
        exists|i: int|
            0 <= i < all_devices.len() && is_duplex(#[trigger] all_devices[i])
                && forall|j: int| 0 <= j < i ==> !is_duplex(#[trigger] all_devices[j]),
{
    let w = choose|i: int| 0 <= i < all_devices.len() && is_duplex(#[trigger] all_devices[i]);
    lemma_first_duplex_below(all_devices, w);
}

proof fn lemma_first_duplex_below(all_devices: Seq<DeviceProbe>, w: int)
    requires
        0 <= w < all_devices.len(),
        is_duplex(all_devices[w]),
    ensures
        exists|i: int|
            0 <= i <= w && is_duplex(#[trigger] all_devices[i])
                && forall|j: int| 0 <= j < i ==> !is_duplex(#[trigger] all_devices[j]),
    decreases w,
{
    if exists|j: int| 0 <= j < w && is_duplex(#[trigger] all_devices[j]) {
        let j = choose|j: int| 0 <= j < w && is_duplex(#[trigger] all_devices[j]);
        lemma_first_duplex_below(all_devices, j);
    } else {
        assert(is_duplex(all_devices[w]) && forall|j: int| 0 <= j < w ==> !is_duplex(#[trigger] all_devices[j]));
    }
}

/// The view of each listed device.
pub open spec fn dto_views(v: Seq<AudioDeviceDto>) -> Seq<(Seq<char>, Seq<char>, u32)> {
    v.map_values(|d: AudioDeviceDto| d@)
}

/// Whether a probe offers both an input and an output configuration.
pub open spec fn is_duplex(p: DeviceProbe) -> bool {
    p.input_sample_rate is Some && p.output_sample_rate is Some
}

/// The device named `id` among `probes[from..]`, scanning in order; devices
/// that are not duplex are skipped when `duplex` holds, and so are devices
/// whose id the host could not report.
pub open spec fn find_device_from(probes: Seq<DeviceProbe>, id: Seq<char>, duplex: bool, from: int) -> Option<
    int,
>
    decreases probes.len() - from,
{
    if from < 0 || from >= probes.len() {
        None
    } else if duplex && !is_duplex(probes[from]) {
        find_device_from(probes, id, duplex, from + 1)
    } else {
        match probes[from].id {
            None => find_device_from(probes, id, duplex, from + 1),
            Some(d) => if d@ == id {
                Some(from)
            } else {
                find_device_from(probes, id, duplex, from + 1)
            },
        }
    }
}

/// Which devices an ASIO default choice or a host default choice names.
pub enum DefaultDevices {
    /// The listed device at this index serves both input and output.
    Duplex(usize),
    /// The host's default input and output devices.
    HostDefaults,
}

/// Selects the audio driver and decides which devices are listed and used.
pub struct DeviceService {
    selected_audio_driver: String,
    windows: bool,
}

impl View for DeviceService {
    /// `(selected driver, runs on Windows)`.
    type V = (Seq<char>, bool);

    closed spec fn view(&self) -> (Seq<char>, bool) {
        (self.selected_audio_driver@, self.windows)
    }
}

impl DeviceService {
    /// The selected driver is always one the platform offers.
    #[verifier::type_invariant]
    closed spec fn driver_offered(self) -> bool {
        available_drivers(self.windows).contains(self.selected_audio_driver@)
    }

    /// Whether the ASIO driver is the selected one.
    pub open spec fn asio_selected(&self) -> bool {
        self@.1 && self@.0 == asio_driver()
    }

    /// A service for a platform (`windows`: whether it is Windows) with the
    /// default driver selected.
    pub fn new(windows: bool) -> (r: Self)
        ensures
            r@ == (default_driver(), windows),
    {
        let d = String::from_str("Default");
        assert(available_drivers(windows)[0] == d@);
        DeviceService { selected_audio_driver: d, windows }
    }

    /// The drivers this platform offers.
    pub fn available_audio_drivers(&self) -> (r: Vec<String>)
        ensures
            string_views(r@) == available_drivers(self@.1),
    {
        let mut r = Vec::new();
        r.push(String::from_str("Default"));
        if self.windows {
            r.push(String::from_str("ASIO"));
        }
        assert(string_views(r@) =~= available_drivers(self@.1));
        r
    }

    /// The selected driver, which is always one of the available drivers.
    pub fn selected_audio_driver(&self) -> (r: String)
        ensures
            r@ == self@.0,
            available_drivers(self@.1).contains(r@),
    {
        proof {
            use_type_invariant(self);
        }
        self.selected_audio_driver.clone()
    }

    /// Selects `driver`, named in any ASCII case; an unknown driver is refused
    /// and leaves the selection as it was.
    pub fn set_selected_audio_driver(&mut self, driver: &str) -> (r: Result<(), String>)
        ensures
            final(self)@.1 == old(self)@.1,
            match normalized_driver(old(self)@.1, driver@) {
                Some(d) => unit_result(r) == Ok::<(), Seq<char>>(()) && final(self)@.0 == d,
                None => unit_result(r) == Err::<(), Seq<char>>(
                    "Unsupported audio driver '"@ + driver@ + "'."@,
                ) && final(self)@ == old(self)@,
            },
    {
        if eq_ignore_ascii_case_exec(driver, "Default") {
            let d = String::from_str("Default");
            assert(available_drivers(self.windows)[0] == d@);
            self.selected_audio_driver = d;
            return Ok(());
        }
        if self.windows && eq_ignore_ascii_case_exec(driver, "ASIO") {
            let d = String::from_str("ASIO");
            assert(available_drivers(self.windows)[1] == d@);
            self.selected_audio_driver = d;
            return Ok(());
        }
        let mut msg = String::from_str("Unsupported audio driver '");
        msg.append(driver);
        msg.append("'.");
        Err(msg)
    }

    /// Whether the ASIO driver is selected (only possible on Windows).
    pub fn is_asio_selected(&self) -> (r: bool)
        ensures
            r == self.asio_selected(),
    {
        let asio = String::from_str("ASIO");
        self.windows && self.selected_audio_driver == asio
    }

    /// The host backend for `driver` on this platform.
    pub fn host_for_driver(&self, driver: &str) -> (r: HostRequest)
        ensures
            host_request_view(r) == host_for_driver_spec(self@.1, driver@),
    {
        if self.windows {
            if eq_ignore_ascii_case_exec(driver, "ASIO") {
                return HostRequest::Backend { name: String::from_str("Asio"), fall_back_to_default: false };
            }
            return HostRequest::Backend { name: String::from_str("Wasapi"), fall_back_to_default: true };
        }
        HostRequest::Default
    }

    /// The host backend for the selected driver.
    pub fn host_for_selected_driver(&self) -> (r: HostRequest)
        ensures
            host_request_view(r) == host_for_driver_spec(self@.1, self@.0),
    {
        let d = self.selected_audio_driver.clone();
        self.host_for_driver(d.as_str())
    }

    /// The index of the first host whose backend name is `backend_name`,
    /// ignoring ASCII case, among the host names the platform offers.
    pub fn host_from_backend_name(host_names: &Vec<String>, backend_name: &str) -> (r: Result<
        usize,
        String,
    >)
        ensures
            index_result(r) == host_index_spec(string_views(host_names@), backend_name@),
    {
        let ghost names = string_views(host_names@);
        let mut i: usize = 0;
        while i < host_names.len()
            invariant
                i <= host_names@.len(),
                names == string_views(host_names@),
                forall|j: int| 0 <= j < i ==> !eq_ignore_ascii_case(#[trigger] names[j], backend_name@),
            decreases host_names@.len() - i,
        {
            if eq_ignore_ascii_case_exec(host_names[i].as_str(), backend_name) {
                proof {
                    assert(names[i as int] == host_names@[i as int]@);
                    let w = choose|w: int|
                        0 <= w < names.len() && eq_ignore_ascii_case(#[trigger] names[w], backend_name@)
                            && forall|j: int| 0 <= j < w ==> !eq_ignore_ascii_case(#[trigger] names[j], backend_name@);
                    if w > i {
                        assert(!eq_ignore_ascii_case(names[i as int], backend_name@));
                    }
                    assert(w == i);
                }
                return Ok(i);
            }
            assert(names[i as int] == host_names@[i as int]@);
            i = i + 1;
        }
        let mut msg = String::from_str(backend_name);
        msg.append(" host is not available");
        Err(msg)
    }

    /// The user-facing record of `probe` at `sample_rate`.
    pub fn device_to_audio_device_dto(probe: &DeviceProbe, sample_rate: u32) -> (r: Option<AudioDeviceDto>)
        ensures
            dto_option_view(r) == device_dto(*probe, sample_rate),
    {
        match (&probe.name, &probe.id) {
            (Some(name), Some(id)) => Some(AudioDeviceDto { id: id.clone(), name: name.clone(), sample_rate }),
            _ => None,
        }
    }

    /// Where the devices for the input list come from.
    pub fn input_device_source(&self) -> (r: DeviceListSource)
        ensures
            r == (if self.asio_selected() { DeviceListSource::AllDevices } else { DeviceListSource::InputDevices }),
    {
        if self.is_asio_selected() {
            DeviceListSource::AllDevices
        } else {
            DeviceListSource::InputDevices
        }
    }

    /// Where the devices for the output list come from.
    pub fn output_device_source(&self) -> (r: DeviceListSource)
        ensures
            r == (if self.asio_selected() { DeviceListSource::AllDevices } else { DeviceListSource::OutputDevices }),
    {
        if self.is_asio_selected() {
            DeviceListSource::AllDevices
        } else {
            DeviceListSource::OutputDevices
        }
    }

    /// The devices that support both directions, at the lower of their two
    /// rates, among all the host's devices.
    pub fn get_duplex_devices(&self, all_devices: &Vec<DeviceProbe>) -> (r: Vec<AudioDeviceDto>)
        ensures
            dto_views(r@) == all_devices@.filter_map(duplex_dto()),
    {
        list_devices(all_devices, DeviceListSource::AllDevices)
    }

    /// The input device list, from the devices of `self.input_device_source()`:
    /// duplex devices under ASIO, else every input device the host could name.
    pub fn get_input_devices(&self, devices: &Vec<DeviceProbe>) -> (r: Vec<AudioDeviceDto>)
        ensures
            dto_views(r@) == devices@.filter_map(
                if self.asio_selected() { duplex_dto() } else { input_dto() },
            ),
    {
        if self.is_asio_selected() {
            return self.get_duplex_devices(devices);
        }
        list_devices(devices, DeviceListSource::InputDevices)
    }

    /// The output device list, from the devices of `self.output_device_source()`:
    /// duplex devices under ASIO, else every output device the host could name.
    pub fn get_output_devices(&self, devices: &Vec<DeviceProbe>) -> (r: Vec<AudioDeviceDto>)
        ensures
            dto_views(r@) == devices@.filter_map(
                if self.asio_selected() { duplex_dto() } else { output_dto() },
            ),
    {
        if self.is_asio_selected() {
            return self.get_duplex_devices(devices);
        }
        list_devices(devices, DeviceListSource::OutputDevices)
    }

    /// The index of the input device named `id` among the devices of
    /// `self.input_device_source()`.
    pub fn find_input_device_by_id(&self, devices: &Vec<DeviceProbe>, id: &str) -> (r: Option<usize>)
        ensures
            index_option(r) == find_device_from(devices@, id@, self.asio_selected(), 0),
    {
        let duplex = self.is_asio_selected();
        find_device(devices, id, duplex)
    }

    /// The index of the output device named `id` among the devices of
    /// `self.output_device_source()`.
    pub fn find_output_device_by_id(&self, devices: &Vec<DeviceProbe>, id: &str) -> (r: Option<usize>)
        ensures
            index_option(r) == find_device_from(devices@, id@, self.asio_selected(), 0),
    {
        let duplex = self.is_asio_selected();
        find_device(devices, id, duplex)
    }

    /// The devices to open by default: under ASIO the first device of the
    /// host that supports both directions, else the host's default input and
    /// output devices, which must both exist.
    pub fn default_devices_for_selected_driver(
        &self,
        all_devices: &Vec<DeviceProbe>,
        has_default_input: bool,
        has_default_output: bool,
    ) -> (r: Result<DefaultDevices, String>)
        ensures
            default_devices_result(r) == default_devices_spec(
                self.asio_selected(),
                all_devices@,
                has_default_input,
                has_default_output,
            ),
            self.asio_selected() ==> match r {
                Ok(DefaultDevices::Duplex(i)) => {
                    &&& i < all_devices@.len()
                    &&& all_devices@[i as int].input_sample_rate is Some
                    &&& all_devices@[i as int].output_sample_rate is Some
                    &&& forall|j: int|
                        0 <= j < i ==> !((#[trigger] all_devices@[j]).input_sample_rate is Some
                            && all_devices@[j].output_sample_rate is Some)
                },
                Ok(DefaultDevices::HostDefaults) => false,
                Err(_) => forall|j: int|
                    0 <= j < all_devices@.len() ==> !((#[trigger] all_devices@[j]).input_sample_rate is Some
                        && all_devices@[j].output_sample_rate is Some),
            },
            !self.asio_selected() ==> (r matches Ok(DefaultDevices::HostDefaults) <==> (has_default_input
                && has_default_output)),
    {
        if self.is_asio_selected() {
            let mut i: usize = 0;
            while i < all_devices.len()
                invariant
                    self.asio_selected(),
                    i <= all_devices@.len(),
                    forall|j: int| 0 <= j < i ==> !is_duplex(#[trigger] all_devices@[j]),
                decreases all_devices@.len() - i,
            {
                if all_devices[i].input_sample_rate.is_some() && all_devices[i].output_sample_rate.is_some() {
                    proof {
                        assert(is_duplex(all_devices@[i as int]));
                        let w = choose|w: int|
                            0 <= w < all_devices@.len() && is_duplex(#[trigger] all_devices@[w])
                                && forall|j: int| 0 <= j < w ==> !is_duplex(#[trigger] all_devices@[j]);
                        if w > i {
                            assert(!is_duplex(all_devices@[i as int]));
                        }
                        assert(w == i);
                    }
                    return Ok(DefaultDevices::Duplex(i));
                }
                i = i + 1;
            }
            return Err(String::from_str("No ASIO device with both input and output support was found"));
        }
        if !has_default_input {
            return Err(String::from_str("No default input device found"));
        }
        if !has_default_output {
            return Err(String::from_str("No default output device found"));
        }
        Ok(DefaultDevices::HostDefaults)
    }
}

/// Which of the host's device lists a device list is made from.
#[derive(PartialEq, Eq, Structural, Clone, Copy, Debug)]
pub enum DeviceListSource {
    AllDevices,
    InputDevices,
    OutputDevices,
}

/// How devices from `source` are listed.
pub open spec fn listing_for(source: DeviceListSource) -> spec_fn(DeviceProbe) -> Option<
    (Seq<char>, Seq<char>, u32),
> {
    match source {
        DeviceListSource::AllDevices => duplex_dto(),
        DeviceListSource::InputDevices => input_dto(),
        DeviceListSource::OutputDevices => output_dto(),
    }
}

fn list_devices(probes: &Vec<DeviceProbe>, source: DeviceListSource) -> (r: Vec<AudioDeviceDto>)
    ensures
        dto_views(r@) == probes@.filter_map(listing_for(source)),
{
    let mut out: Vec<AudioDeviceDto> = Vec::new();
    let mut i: usize = 0;
    assert(probes@.take(0) =~= Seq::<DeviceProbe>::empty());
    assert(dto_views(out@) =~= probes@.take(0).filter_map(listing_for(source)));
    while i < probes.len()
        invariant
            i <= probes@.len(),
            dto_views(out@) == probes@.take(i as int).filter_map(listing_for(source)),
        decreases probes@.len() - i,
    {
        proof {
            probes@.lemma_filter_map_take_succ(listing_for(source), i as int);
        }
        let p = &probes[i];
        let rate = match source {
            DeviceListSource::AllDevices => match (p.input_sample_rate, p.output_sample_rate) {
                (Some(a), Some(b)) => Some(if a <= b { a } else { b }),
                _ => None,
            },
            DeviceListSource::InputDevices => p.input_sample_rate,
            DeviceListSource::OutputDevices => p.output_sample_rate,
        };
        let ghost before = dto_views(out@);
        match rate {
            Some(r) => {
                let d = DeviceService::device_to_audio_device_dto(p, r);
                assert(listing_for(source)(probes@[i as int]) == device_dto(probes@[i as int], r));
                match d {
                    Some(d) => {
                        out.push(d);
                        assert(dto_views(out@) =~= before + seq![d@]);
                    },
                    None => {
                        assert(dto_views(out@) =~= before + Seq::empty());
                    },
                }
            },
            None => {
                assert(listing_for(source)(probes@[i as int]) is None);
                assert(dto_views(out@) =~= before + Seq::empty());
            },
        }
        i = i + 1;
    }
    assert(probes@.take(probes@.len() as int) =~= probes@);
    out
}

fn find_device(probes: &Vec<DeviceProbe>, id: &str, duplex: bool) -> (r: Option<usize>)
    ensures
        index_option(r) == find_device_from(probes@, id@, duplex, 0),
{
    let target = String::from_str(id);
    let mut i: usize = 0;
    while i < probes.len()
        invariant
            i <= probes@.len(),
            target@ == id@,
            find_device_from(probes@, id@, duplex, 0) == find_device_from(probes@, id@, duplex, i as int),
        decreases probes@.len() - i,
    {
        let p = &probes[i];
        if duplex && !(p.input_sample_rate.is_some() && p.output_sample_rate.is_some()) {
            i = i + 1;
            continue;
        }
        if let Some(d) = &p.id {
            if *d == target {
                return Some(i);
            }
        }
        i = i + 1;
    }
    None
}

/// An index result, seen as an integer.
pub open spec fn index_result(r: Result<usize, String>) -> Result<int, Seq<char>> {
    match r {
        Ok(i) => Ok(i as int),
        Err(e) => Err(e@),
    }
}

/// An optional index, seen as an integer.
pub open spec fn index_option(r: Option<usize>) -> Option<int> {
    match r {
        Some(i) => Some(i as int),
        None => None,
    }
}

/// An optional device record, seen through its view.
pub open spec fn dto_option_view(r: Option<AudioDeviceDto>) -> Option<(Seq<char>, Seq<char>, u32)> {
    match r {
        Some(d) => Some(d@),
        None => None,
    }
}

/// The default-device choice for a driver.
pub open spec fn default_devices_spec(
    asio: bool,
    all_devices: Seq<DeviceProbe>,
    has_default_input: bool,
    has_default_output: bool,
) -> Result<Option<int>, Seq<char>> {
    if asio {
        if exists|i: int| 0 <= i < all_devices.len() && is_duplex(#[trigger] all_devices[i]) {
            Ok(
                Some(
                    choose|i: int|
                        0 <= i < all_devices.len() && is_duplex(#[trigger] all_devices[i])
                            && forall|j: int| 0 <= j < i ==> !is_duplex(#[trigger] all_devices[j]),
                ),
            )
        } else {
            Err("No ASIO device with both input and output support was found"@)
        }
    } else if !has_default_input {
        Err("No default input device found"@)
    } else if !has_default_output {
        Err("No default output device found"@)
    } else {
        Ok(None)
    }
}

/// A default-device choice: `Some(i)` for a duplex device, `None` for the
/// host defaults.
pub open spec fn default_devices_result(r: Result<DefaultDevices, String>) -> Result<Option<int>, Seq<char>> {
    match r {
        Ok(DefaultDevices::Duplex(i)) => Ok(Some(i as int)),
        Ok(DefaultDevices::HostDefaults) => Ok(None),
        Err(e) => Err(e@),
    }
}

} // verus!
