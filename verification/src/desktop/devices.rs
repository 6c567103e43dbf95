//! Input devices: how they are named and found again, and which format is
//! asked of one.
use vstd::prelude::*;

use crate::text;

verus! {

/// The sample rate that speech is worked on at.
pub const TARGET_SAMPLE_RATE: u32 = 16_000;

/// A character that a device id keeps: an ASCII letter or digit.
pub open spec fn is_plain(c: char) -> bool {
    ||| 'a' <= c <= 'z'
    ||| 'A' <= c <= 'Z'
    ||| '0' <= c <= '9'
}

/// A label with a hyphen for every character that is no ASCII letter or digit.
pub open spec fn sanitized(label: Seq<char>) -> Seq<char> {
    label.map_values(
        |c: char|
            if is_plain(c) {
                c
            } else {
                '-'
            },
    )
}

/// A label with a hyphen for every character that is no ASCII letter or digit.
pub fn sanitize_identifier(label: &str) -> (r: String)
    ensures
        r@ == sanitized(label@),
{
    let chars = text::chars_of(label);
    let mut out: Vec<char> = Vec::new();
    let mut i: usize = 0;
    while i < chars.len()
        invariant
            i <= chars@.len(),
            out@ == sanitized(chars@.take(i as int)),
        decreases chars.len() - i,
    {
        let c = chars[i];
        let kept = match c {
            'a'..='z' | 'A'..='Z' | '0'..='9' => c,
            _ => '-',
        };
        assert(chars@.take(i + 1) =~= chars@.take(i as int).push(c));
        assert(sanitized(chars@.take(i + 1)) =~= sanitized(chars@.take(i as int)).push(kept));
        out.push(kept);
        i += 1;
    }
    assert(chars@.take(chars@.len() as int) =~= chars@);
    text::string_of(&out)
}

/// The kind of device, by its label in lower case.
pub open spec fn kind_of(lower: Seq<char>) -> Seq<char> {
    if text::holds_text(lower, "usb"@) {
        "usb"@
    } else if text::holds_text(lower, "bluetooth"@) || text::holds_text(lower, "bt"@) {
        "bluetooth"@
    } else if text::holds_text(lower, "array"@) {
        "array"@
    } else {
        "built-in"@
    }
}

/// The kind of device, by its label in lower case.
pub fn kind_of_lowered(lower: &str) -> (r: String)
    ensures
        r@ == kind_of(lower@),
{
    if text::contains_str(lower, "usb") {
        "usb".to_owned()
    } else if text::contains_str(lower, "bluetooth") || text::contains_str(lower, "bt") {
        "bluetooth".to_owned()
    } else if text::contains_str(lower, "array") {
        "array".to_owned()
    } else {
        "built-in".to_owned()
    }
}

/// The kind of device, by its label.
pub fn classify_device(label: &str) -> (r: String)
    ensures
        r@ == kind_of(text::lower_text(label@)),
        text::is_ascii_text(label@) ==> r@ == kind_of(text::ascii_lower_text(label@)),
{
    kind_of_lowered(text::to_lowercase(label).as_str())
}

/// An input device as it is offered.
#[derive(Debug, Clone)]
pub struct DeviceSummary {
    pub id: String,
    pub label: String,
    pub kind: String,
    pub preferred: bool,
}

/// The label of a device: its name, or its number if it has none.
pub open spec fn label_of(name: Option<Seq<char>>, index: nat) -> Seq<char> {
    match name {
        Some(n) => n,
        None => "输入设备 #"@ + text::decimal_text(index),
    }
}

/// The id of a device: its label and its place in the list.
pub open spec fn device_id(label: Seq<char>, index: nat) -> Seq<char> {
    sanitized(label) + "::"@ + text::decimal_text(index)
}

/// The id of the device that `names` lists at `index`.
pub open spec fn listed_id(names: Seq<Option<String>>, index: int) -> Seq<char> {
    device_id(label_of(text::opt_text(names[index]), index as nat), index as nat)
}

fn label_at(name: &Option<String>, index: usize) -> (r: String)
    ensures
        r@ == label_of(text::opt_text(*name), index as nat),
{
    match name {
        Some(n) => n.clone(),
        None => text::concat("输入设备 #", text::decimal(index as u64).as_str()),
    }
}

fn id_of(label: &str, index: usize) -> (r: String)
    ensures
        r@ == device_id(label@, index as nat),
{
    text::concat3(
        sanitize_identifier(label).as_str(),
        "::",
        text::decimal(index as u64).as_str(),
    )
}

/// Whether a device is the one to offer first: the one with the name of the
/// system's default, or the first where there is no default.
pub open spec fn is_preferred(label: Seq<char>, index: nat, default_name: Option<Seq<char>>) -> bool {
    match default_name {
        Some(name) => name == label,
        None => index == 0,
    }
}

/// Whether a summary describes the device that `names` lists at `index`.
pub open spec fn summarises(
    summary: DeviceSummary,
    names: Seq<Option<String>>,
    index: int,
    default_name: Option<Seq<char>>,
) -> bool {
    let label = label_of(text::opt_text(names[index]), index as nat);
    &&& summary.label@ == label
    &&& summary.id@ == listed_id(names, index)
    &&& summary.kind@ == kind_of(text::lower_text(label))
    &&& summary.preferred == is_preferred(label, index as nat, default_name)
}

/// The devices whose names the system lists, if it lists any.
pub fn list_devices(names: &[Option<String>], default_name: &Option<String>) -> (r: Result<
    Vec<DeviceSummary>,
    String,
>)
    ensures
        match r {
            Ok(list) => names@.len() > 0 && list@.len() == names@.len() && forall|i: int|
                0 <= i < names@.len() ==> summarises(
                    #[trigger] list@[i],
                    names@,
                    i,
                    text::opt_text(*default_name),
                ),
            Err(message) => names@.len() == 0 && message@
                == "未检测到可用的音频输入设备"@,
        },
{
    let mut list: Vec<DeviceSummary> = Vec::new();
    let mut index: usize = 0;
    while index < names.len()
        invariant
            index <= names@.len(),
            list@.len() == index,
            forall|i: int|
                0 <= i < index ==> summarises(
                    #[trigger] list@[i],
                    names@,
                    i,
                    text::opt_text(*default_name),
                ),
        decreases names.len() - index,
    {
        let label = label_at(&names[index], index);
        let id = id_of(label.as_str(), index);
        let kind = classify_device(label.as_str());
        let preferred = match default_name {
            Some(name) => text::same_text(
                &text::chars_of(name.as_str()),
                &text::chars_of(label.as_str()),
            ),
            None => index == 0,
        };
        list.push(DeviceSummary { id, label, kind, preferred });
        index += 1;
    }
    if list.len() == 0 {
        Err("未检测到可用的音频输入设备".to_owned())
    } else {
        Ok(list)
    }
}

/// The device that is to be opened.
#[derive(Debug)]
pub struct DeviceChoice {
    /// Its place among the listed devices; nothing for the system's default.
    pub index: Option<usize>,
    pub label: String,
}

/// The device with an id, or the system's default where none is named. The
/// default is given as nothing if there is none, and without a name if the
/// system has none for it.
pub fn resolve_device(
    names: &[Option<String>],
    device_id: Option<&str>,
    default_device: &Option<Option<String>>,
) -> (r: Result<DeviceChoice, String>)
    ensures
        match device_id {
            Some(id) => match r {
                Ok(choice) => choice.index matches Some(i) && i < names@.len() && listed_id(
                    names@,
                    i as int,
                ) == id@ && choice.label@ == label_of(text::opt_text(names@[i as int]), i as nat),
                Err(message) => (forall|i: int|
                    0 <= i < names@.len() ==> #[trigger] listed_id(names@, i) != id@) && message@
                    == "未找到匹配的设备 "@ + id@,
            },
            None => match *default_device {
                Some(name) => r matches Ok(choice) && choice.index is None && choice.label@ == (
                match name {
                    Some(n) => n@,
                    None => "默认输入设备"@,
                }),
                None => r matches Err(message) && message@
                    == "系统没有可用的默认音频输入设备"@,
            },
        },
{
    match device_id {
        Some(id) => {
            let wanted = text::chars_of(id);
            let mut index: usize = 0;
            while index < names.len()
                invariant
                    index <= names@.len(),
                    wanted@ == id@,
                    device_id == Some(id),
                    forall|i: int| 0 <= i < index ==> #[trigger] listed_id(names@, i) != id@,
                decreases names.len() - index,
            {
                let label = label_at(&names[index], index);
                let candidate = id_of(label.as_str(), index);
                assert(candidate@ == listed_id(names@, index as int));
                if text::same_text(&text::chars_of(candidate.as_str()), &wanted) {
                    return Ok(DeviceChoice { index: Some(index), label });
                }
                index += 1;
            }
            Err(text::concat("未找到匹配的设备 ", id))
        },
        None => match default_device {
            Some(Some(name)) => Ok(DeviceChoice { index: None, label: name.clone() }),
            Some(None) => Ok(DeviceChoice { index: None, label: "默认输入设备".to_owned() }),
            None => Err("系统没有可用的默认音频输入设备".to_owned()),
        },
    }
}

/// The id under which a device's results are kept: the id that was asked for,
/// or the label of the default device.
pub open spec fn key_of(device_id: Option<Seq<char>>, label: Seq<char>) -> Seq<char> {
    match device_id {
        Some(id) => id,
        None => sanitized(label) + "::default"@,
    }
}

/// The id under which a device's results are kept.
pub fn resolved_id(device_id: Option<&str>, label: &str) -> (r: String)
    ensures
        r@ == key_of(
            match device_id {
                Some(id) => Some(id@),
                None => None,
            },
            label@,
        ),
{
    match device_id {
        Some(id) => id.to_owned(),
        None => text::concat(sanitize_identifier(label).as_str(), "::default"),
    }
}

/// The name of the recording that a device test keeps.
pub fn device_test_token(label: &str, timestamp_ms: u128) -> (r: String)
    ensures
        r@ == "device-test-"@ + sanitized(label@) + "-"@ + text::decimal_text(timestamp_ms as nat),
{
    text::concat4(
        "device-test-",
        sanitize_identifier(label).as_str(),
        "-",
        text::decimal_wide(timestamp_ms).as_str(),
    )
}

/// The sample rates that a device offers in one format.
#[derive(Debug, Clone, Copy)]
pub struct RateRange {
    pub min_rate: u32,
    pub max_rate: u32,
}

/// The format and rate to open a device with.
#[derive(Debug, Clone, Copy, PartialEq, Eq, Structural)]
pub struct StreamChoice {
    /// The place of the format among those that the device offers.
    pub index: usize,
    pub sample_rate: u32,
}

/// The rates to try, best first.
pub open spec fn wanted_rates() -> Seq<u32> {
    seq![TARGET_SAMPLE_RATE, 48_000, 44_100]
}

/// Whether a device offers `rate` in the format at `index`.
pub open spec fn offers(ranges: Seq<RateRange>, index: int, rate: u32) -> bool {
    0 <= index < ranges.len() && ranges[index].min_rate <= rate <= ranges[index].max_rate
}

/// Whether a device offers `rate` in no format.
pub open spec fn offers_nowhere(ranges: Seq<RateRange>, rate: u32) -> bool {
    forall|i: int| !#[trigger] offers(ranges, i, rate)
}

/// Whether `choice` is the right one: the best wanted rate that is offered, in
/// the first format that has it; without one the highest rate of all, in the
/// first format that has it.
pub open spec fn is_best(ranges: Seq<RateRange>, choice: StreamChoice) -> bool {
    ||| exists|k: int|
        0 <= k < 3 && choice.sample_rate == #[trigger] wanted_rates()[k] && is_first_offer(
            ranges,
            choice,
        ) && forall|j: int| 0 <= j < k ==> offers_nowhere(ranges, #[trigger] wanted_rates()[j])
    ||| is_highest(ranges, choice) && forall|j: int|
        0 <= j < 3 ==> offers_nowhere(ranges, #[trigger] wanted_rates()[j])
}

/// Whether `choice` is the first format that offers its rate.
pub open spec fn is_first_offer(ranges: Seq<RateRange>, choice: StreamChoice) -> bool {
    offers(ranges, choice.index as int, choice.sample_rate) && forall|i: int|
        0 <= i < choice.index ==> !#[trigger] offers(ranges, i, choice.sample_rate)
}

/// Whether `choice` is the first format that reaches the highest rate.
pub open spec fn is_highest(ranges: Seq<RateRange>, choice: StreamChoice) -> bool {
    &&& choice.index < ranges.len()
    &&& choice.sample_rate == ranges[choice.index as int].max_rate
    &&& forall|i: int|
        0 <= i < ranges.len() ==> (#[trigger] ranges[i]).max_rate <= choice.sample_rate
    &&& forall|i: int|
        0 <= i < choice.index ==> (#[trigger] ranges[i]).max_rate < choice.sample_rate
}

fn first_offer(ranges: &[RateRange], rate: u32) -> (r: Option<StreamChoice>)
    ensures
        match r {
            Some(choice) => choice.sample_rate == rate && is_first_offer(ranges@, choice),
            None => offers_nowhere(ranges@, rate),
        },
{
    let mut index: usize = 0;
    while index < ranges.len()
        invariant
            index <= ranges@.len(),
            forall|i: int| 0 <= i < index ==> !#[trigger] offers(ranges@, i, rate),
        decreases ranges.len() - index,
    {
        let range = ranges[index];
        if range.min_rate <= rate && rate <= range.max_rate {
            return Some(StreamChoice { index, sample_rate: rate });
        }
        index += 1;
    }
    None
}

/// The format and rate to open a device with, given what it offers.
pub fn select_stream_config(ranges: &[RateRange]) -> (r: Result<StreamChoice, String>)
    ensures
        match r {
            Ok(choice) => is_best(ranges@, choice),
            Err(message) => ranges@.len() == 0 && message@
                == "未找到可用的音频输入配置，请检查麦克风连接"@,
        },
        r is Ok <==> ranges@.len() > 0,
{
    assert(wanted_rates()[0] == TARGET_SAMPLE_RATE);
    assert(wanted_rates()[1] == 48_000);
    assert(wanted_rates()[2] == 44_100);
    if let Some(choice) = first_offer(ranges, TARGET_SAMPLE_RATE) {
        return Ok(choice);
    }
    if let Some(choice) = first_offer(ranges, 48_000) {
        return Ok(choice);
    }
    if let Some(choice) = first_offer(ranges, 44_100) {
        return Ok(choice);
    }
    if ranges.len() == 0 {
        return Err("未找到可用的音频输入配置，请检查麦克风连接".to_owned());
    }
    let mut best = StreamChoice { index: 0, sample_rate: ranges[0].max_rate };
    let mut index: usize = 1;
    while index < ranges.len()
        invariant
            1 <= index <= ranges@.len(),
            best.index < index,
            is_highest(ranges@.take(index as int), best),
        decreases ranges.len() - index,
    {
        let rate: u32 = ranges[index].max_rate;
        let ghost before = ranges@.take(index as int);
        let ghost after = ranges@.take(index + 1);
        assert(after =~= before.push(ranges@[index as int]));
        assert(forall|i: int| 0 <= i < index ==> after[i] == #[trigger] before[i]);
        assert(forall|i: int| 0 <= i < index ==> before[i] == #[trigger] after[i]);
        if rate > best.sample_rate {
            best = StreamChoice { index, sample_rate: rate };
        }
        index += 1;
    }
    assert(ranges@.take(ranges@.len() as int) =~= ranges@);
    Ok(best)
}

/// The sample formats that recordings can be made in.
#[derive(Debug)]
pub enum SampleFormat {
    F32,
    I16,
    U16,
    /// Another one, by its name.
    Other(String),
}

/// Accepts the sample formats that recordings can be made in.
pub fn check_sample_format(format: &SampleFormat) -> (r: Result<(), String>)
    ensures
        match *format {
            SampleFormat::Other(name) => r matches Err(message) && message@
                == "不支持的音频采样格式: "@ + name@
                + ". 请切换到 PCM16/PCM32 设备"@,
            _ => r is Ok,
        },
{
    match format {
        SampleFormat::F32 => Ok(()),
        SampleFormat::I16 => Ok(()),
        SampleFormat::U16 => Ok(()),
        SampleFormat::Other(name) => Err(
            text::concat3(
                "不支持的音频采样格式: ",
                name.as_str(),
                ". 请切换到 PCM16/PCM32 设备",
            ),
        ),
    }
}

proof fn lemma_sanitized_has_no_colon(label: Seq<char>)
    ensures
        forall|i: int| 0 <= i < label.len() ==> #[trigger] sanitized(label)[i] != ':',
{
}

/// Two devices of one list never have the same id, whatever they are called.
pub proof fn law_device_ids_are_distinct(a: Seq<char>, i: nat, b: Seq<char>, j: nat)
    ensures
        device_id(a, i) == device_id(b, j) ==> i == j,
{
    if device_id(a, i) == device_id(b, j) {
        reveal_strlit("::");
        lemma_sanitized_has_no_colon(a);
        lemma_sanitized_has_no_colon(b);
        let x = device_id(a, i);
        let y = device_id(b, j);
        assert(x[a.len() as int] == ':');
        assert(y[b.len() as int] == ':');
        if a.len() < b.len() {
            assert(y[a.len() as int] == sanitized(b)[a.len() as int]);
        }
        if b.len() < a.len() {
            assert(x[b.len() as int] == sanitized(a)[b.len() as int]);
        }
        assert(x.skip(a.len() as int + 2) =~= text::decimal_text(i));
        assert(y.skip(b.len() as int + 2) =~= text::decimal_text(j));
        text::lemma_decimal_injective(i, j);
    }
}

/// The id of a listed device leads back to that device and to no other.
pub proof fn law_listed_device_is_found(names: Seq<Option<String>>, index: int, found: int)
    requires
        0 <= index < names.len(),
        0 <= found < names.len(),
        listed_id(names, found) == listed_id(names, index),
    ensures
        found == index,
{
    law_device_ids_are_distinct(
        label_of(text::opt_text(names[found]), found as nat),
        found as nat,
        label_of(text::opt_text(names[index]), index as nat),
        index as nat,
    );
}

/// A device's label keeps its letters and digits in an id, in place, and nothing
/// else: every other character is a hyphen there.
pub proof fn law_labels_are_made_plain(label: Seq<char>, i: int)
    requires
        0 <= i < label.len(),
    ensures
        sanitized(label).len() == label.len(),
        sanitized(label)[i] == if ('a' <= label[i] && label[i] <= 'z') || ('A' <= label[i]
            && label[i] <= 'Z') || ('0' <= label[i] && label[i] <= '9') {
            label[i]
        } else {
            '-'
        },
        sanitized(sanitized(label)) == sanitized(label),
{
    assert(sanitized(sanitized(label)) =~= sanitized(label));
}

/// A device is of the first of these kinds whose name its label holds anywhere;
/// one that holds none is built in.
pub proof fn law_kind_is_read_from_the_label(before: Seq<char>, after: Seq<char>, lower: Seq<char>)
    ensures
        kind_of(before + "usb"@ + after) == "usb"@,
        !text::holds_text(before + "bluetooth"@ + after, "usb"@) ==> kind_of(
            before + "bluetooth"@ + after,
        ) == "bluetooth"@,
        !text::holds_text(before + "bt"@ + after, "usb"@) ==> kind_of(before + "bt"@ + after)
            == "bluetooth"@,
        ({
            let l = before + "array"@ + after;
            !text::holds_text(l, "usb"@) && !text::holds_text(l, "bluetooth"@) && !text::holds_text(
                l,
                "bt"@,
            ) ==> kind_of(l) == "array"@
        }),
        !text::holds_text(lower, "usb"@) && !text::holds_text(lower, "bluetooth"@)
            && !text::holds_text(lower, "bt"@) && !text::holds_text(lower, "array"@) ==> kind_of(
            lower,
        ) == "built-in"@,
{
    lemma_holds(before, "usb"@, after);
    lemma_holds(before, "bluetooth"@, after);
    lemma_holds(before, "bt"@, after);
    lemma_holds(before, "array"@, after);
}

proof fn lemma_holds(before: Seq<char>, part: Seq<char>, after: Seq<char>)
    ensures
        text::holds_text(before + part + after, part),
{
    let s = before + part + after;
    let at = before.len() as int;
    assert(s.subrange(at, at + part.len()) =~= part);
    assert(text::stands_at(s, part, at));
}

/// The rate that speech is worked on at is taken wherever it is offered, then the
/// two usual ones in turn, then the highest there is; and always the first
/// format that has it.
pub proof fn law_best_rate_is_taken(ranges: Seq<RateRange>, choice: StreamChoice, i: int)
    requires
        is_best(ranges, choice),
        0 <= i < ranges.len(),
    ensures
        ranges[i].min_rate <= 16_000 <= ranges[i].max_rate ==> choice.sample_rate == 16_000,
        ranges[i].min_rate <= 48_000 <= ranges[i].max_rate ==> choice.sample_rate == 16_000
            || choice.sample_rate == 48_000,
        ranges[i].min_rate <= 44_100 <= ranges[i].max_rate ==> choice.sample_rate == 16_000
            || choice.sample_rate == 48_000 || choice.sample_rate == 44_100,
        choice.sample_rate != 16_000 && choice.sample_rate != 48_000 && choice.sample_rate != 44_100
            ==> ranges[i].max_rate <= choice.sample_rate,
        choice.index < ranges.len(),
        ranges[choice.index as int].max_rate >= choice.sample_rate,
        i < choice.index ==> !(ranges[i].min_rate <= choice.sample_rate <= ranges[i].max_rate)
            || ranges[i].max_rate < choice.sample_rate || choice.sample_rate
            == ranges[choice.index as int].max_rate,
{
    assert(wanted_rates()[0] == 16_000);
    assert(wanted_rates()[1] == 48_000);
    assert(wanted_rates()[2] == 44_100);
    assert(offers(ranges, i, 16_000) <==> ranges[i].min_rate <= 16_000 <= ranges[i].max_rate);
    assert(offers(ranges, i, 48_000) <==> ranges[i].min_rate <= 48_000 <= ranges[i].max_rate);
    assert(offers(ranges, i, 44_100) <==> ranges[i].min_rate <= 44_100 <= ranges[i].max_rate);
    assert(offers(ranges, i, choice.sample_rate) <==> ranges[i].min_rate <= choice.sample_rate
        <= ranges[i].max_rate);
}

/// The system's default device is the one to offer first, by its name; without a
/// default it is the first of the list.
pub proof fn law_default_device_is_preferred(label: Seq<char>, index: nat, name: Seq<char>)
    ensures
        is_preferred(label, index, Some(label)),
        name != label ==> !is_preferred(label, index, Some(name)),
        is_preferred(label, index, None) <==> index == 0,
{
}

/// A device is found again by its id: the plain form of its label and its place
/// in the list, or, for the system's default, the plain form of its label alone.
/// A device without a name is called by its place.
pub proof fn law_ids_tell_label_and_place(label: Seq<char>, index: nat, id: Seq<char>)
    ensures
        device_id(label, index) == sanitized(label) + "::"@ + text::decimal_text(index),
        key_of(None, label) == sanitized(label) + "::default"@,
        key_of(Some(id), label) == id,
        label_of(Some(label), index) == label,
        label_of(None, index) == "输入设备 #"@ + text::decimal_text(index),
{
}

} // verus!
