use crate::error::{Error, ErrorKind};
use crate::temperature::{CoreTemperature, Temperatures};
use crate::text::{
    all_digits, capped_decimal, decimal_string, decimal_text, decimal_value, digits_value,
    has_prefix, leading_digit_count, leading_digits, lemma_leading_digits, min_nat,
    starts_with_chars, text_chars,
};
use std::collections::BTreeMap;
use vstd::prelude::*;
use vstd::string::*;

verus! {

broadcast use vstd::laws_cmp::group_laws_cmp;

/// The JSON output of `sensors -j`.
pub type SensorsOutput = String;

#[verifier::external_type_specification]
#[verifier::external_body]
pub struct ExJsonValue(serde_json::Value);

/// What serde_json decodes from a text: a value, or nothing when the text is
/// not JSON.
pub uninterp spec fn json_decode(text: Seq<char>) -> Option<serde_json::Value>;

/// The member of an object under a name; nothing when the value is not an
/// object or has no such member.
pub uninterp spec fn json_member(v: serde_json::Value, name: Seq<char>) -> Option<
    serde_json::Value,
>;

/// The names of the members of an object; nothing when the value is not an
/// object.
pub uninterp spec fn json_member_names(v: serde_json::Value) -> Option<Seq<Seq<char>>>;

/// The decimal text of a number; nothing when the value is not a number.
pub uninterp spec fn json_number_text(v: serde_json::Value) -> Option<Seq<char>>;

/// Relies on `serde_json::from_str`: decodes a JSON document, or fails.
#[verifier::external_body]
fn decode_json(text: &str) -> (r: Option<serde_json::Value>)
    ensures
        r == json_decode(text@),
{
    serde_json::from_str(text).ok()
}

/// Relies on `serde_json::Value::get` with a string index: the member under
/// `name` of an object.
#[verifier::external_body]
fn member<'a>(v: &'a serde_json::Value, name: &str) -> (r: Option<&'a serde_json::Value>)
    ensures
        match r {
            Some(m) => json_member(*v, name@) == Some(*m),
            None => json_member(*v, name@) is None,
        },
{
    v.get(name)
}

/// Relies on `serde_json::Value::as_object` and `serde_json::Map::keys`: the
/// names of an object's members, under each of which `Value::get` finds one.
#[verifier::external_body]
fn member_names(v: &serde_json::Value) -> (r: Option<Vec<String>>)
    ensures
        match r {
            Some(names) => {
                &&& json_member_names(*v) == Some(names@.map_values(|n: String| n@))
                &&& forall|i: int|
                    0 <= i < names.len() ==> (#[trigger] json_member(*v, names@[i]@)) is Some
            },
            None => json_member_names(*v) is None,
        },
{
    v.as_object().map(|m| m.keys().cloned().collect())
}

/// Relies on `serde_json::Value::as_number` and the `Display` impl of
/// `serde_json::Number`: the decimal text of a number.
#[verifier::external_body]
fn number_text(v: &serde_json::Value) -> (r: Option<String>)
    ensures
        match r {
            Some(t) => json_number_text(*v) == Some(t@),
            None => json_number_text(*v) is None,
        },
{
    v.as_number().map(|n| n.to_string())
}

/// The top-level section that holds the per-core sensors.
pub open spec fn core_chip() -> Seq<char> {
    "coretemp-isa-0000"@
}

/// The prefix of the name of a core's entry; the core's index follows it.
pub open spec fn core_prefix() -> Seq<char> {
    "Core "@
}

/// The entry, within the core section, of the package-wide sensor.
pub open spec fn package_entry() -> Seq<char> {
    "Package id 0"@
}

/// The field of the package entry that holds its reading.
pub open spec fn package_field() -> Seq<char> {
    "temp1_input"@
}

/// Digits with an optional fractional part: `45` or `45.875`.
pub open spec fn plain_decimal(t: Seq<char>) -> bool {
    let p = leading_digits(t);
    p > 0 && (p == t.len() || (t[p as int] == '.' && p + 1 < t.len() && leading_digits(
        t.skip(p + 1 as int),
    ) == t.len() - p - 1))
}

/// A reading in whole degrees: the number truncated toward zero and held
/// within 0..=255. Text in exponent notation is not a reading.
pub open spec fn truncated_reading(t: Seq<char>) -> Option<u8> {
    if t.len() > 1 && t[0] == '-' && plain_decimal(t.skip(1)) {
        Some(0)
    } else if plain_decimal(t) {
        Some(min_nat(decimal_value(t.take(leading_digits(t) as int)), 255) as u8)
    } else {
        None
    }
}

/// The name of a core's reading: sensors number them two above the core.
pub open spec fn reading_field(id: u8, suffix: Seq<char>) -> Seq<char> {
    "temp"@ + decimal_text(id as nat + 2) + "_"@ + suffix
}

/// The reading that an entry holds under a field.
pub open spec fn field_reading(entry: serde_json::Value, field: Seq<char>) -> Option<u8> {
    match json_member(entry, field) {
        Some(m) => match json_number_text(m) {
            Some(t) => truncated_reading(t),
            None => None,
        },
        None => None,
    }
}

/// The three readings of a core's entry.
pub open spec fn core_temperature_at(entry: serde_json::Value, id: u8) -> Option<CoreTemperature> {
    match (
        field_reading(entry, reading_field(id, "input"@)),
        field_reading(entry, reading_field(id, "max"@)),
        field_reading(entry, reading_field(id, "crit"@)),
    ) {
        (Some(temp), Some(max), Some(critical)) => Some(CoreTemperature { temp, max, critical }),
        _ => None,
    }
}

/// The core index that an entry's name gives: the prefix, then decimal
/// digits for a number that fits in a byte. Other entries are not cores.
pub open spec fn core_id_of(name: Seq<char>) -> Option<u8> {
    let rest = name.skip(core_prefix().len() as int);
    if has_prefix(name, core_prefix()) && rest.len() > 0 && all_digits(rest) && decimal_value(rest)
        <= 255 {
        Some(decimal_value(rest) as u8)
    } else {
        None
    }
}

/// The cores that a list of entry names gives, in order.
pub open spec fn core_ids(names: Seq<Seq<char>>) -> Seq<u8>
    decreases names.len(),
{
    if names.len() == 0 {
        seq![]
    } else {
        match core_id_of(names.last()) {
            Some(id) => core_ids(names.drop_last()).push(id),
            None => core_ids(names.drop_last()),
        }
    }
}

/// The readings of the cores among the named entries of a section, in order;
/// nothing when a core's entry lacks one of them.
pub open spec fn core_readings(chip: serde_json::Value, names: Seq<Seq<char>>) -> Option<
    Seq<(u8, CoreTemperature)>,
>
    decreases names.len(),
{
    if names.len() == 0 {
        Some(seq![])
    } else {
        match core_readings(chip, names.drop_last()) {
            None => None,
            Some(prev) => match core_id_of(names.last()) {
                None => Some(prev),
                Some(id) => match json_member(chip, names.last()) {
                    Some(entry) => match core_temperature_at(entry, id) {
                        Some(ct) => Some(prev.push((id, ct))),
                        None => None,
                    },
                    None => None,
                },
            },
        }
    }
}

pub open spec fn ids_distinct(rs: Seq<(u8, CoreTemperature)>) -> bool {
    forall|i: int, j: int| 0 <= i < j < rs.len() ==> rs[i].0 != rs[j].0
}

/// The readings as a map from core index.
pub open spec fn readings_map(rs: Seq<(u8, CoreTemperature)>) -> Map<u8, CoreTemperature>
    decreases rs.len(),
{
    if rs.len() == 0 {
        Map::empty()
    } else {
        readings_map(rs.drop_last()).insert(rs.last().0, rs.last().1)
    }
}

/// The sum of the cores' current temperatures.
pub open spec fn temp_sum(rs: Seq<(u8, CoreTemperature)>) -> nat
    decreases rs.len(),
{
    if rs.len() == 0 {
        0
    } else {
        temp_sum(rs.drop_last()) + rs.last().1.temp as nat
    }
}

/// The overall temperature: the package sensor's reading when the section has
/// one, else the mean of the cores' current temperatures, rounded down.
pub open spec fn average_of(chip: serde_json::Value, rs: Seq<(u8, CoreTemperature)>) -> Option<u8> {
    match json_member(chip, package_entry()) {
        Some(package) => field_reading(package, package_field()),
        None => if rs.len() == 0 {
            None
        } else {
            Some((temp_sum(rs) / rs.len()) as u8)
        },
    }
}

/// The per-core section of a sensor output, when it is JSON and has one.
pub open spec fn chip_of(text: Seq<char>) -> Option<serde_json::Value> {
    match json_decode(text) {
        Some(doc) => json_member(doc, core_chip()),
        None => None,
    }
}

/// The temperatures that a sensor output reports, as the overall figure and
/// the map of cores; nothing when the output lacks the core section, a
/// reading, or any core at all, or names one core twice.
pub open spec fn sensor_temperatures(text: Seq<char>) -> Option<(u8, Map<u8, CoreTemperature>)> {
    match chip_of(text) {
        None => None,
        Some(chip) => match json_member_names(chip) {
            None => None,
            Some(names) => match core_readings(chip, names) {
                None => None,
                Some(rs) => if !ids_distinct(rs) {
                    None
                } else {
                    match average_of(chip, rs) {
                        Some(avg) => Some((avg, readings_map(rs))),
                        None => None,
                    }
                },
            },
        },
    }
}

/// The readings of one core that a sensor output reports. A core with no
/// entry is an invalid value; an output without the core section, or a core
/// entry without its readings, is a generic error.
pub open spec fn sensor_core_temperature(text: Seq<char>, id: u8) -> Result<CoreTemperature, ErrorKind> {
    match chip_of(text) {
        None => Err(ErrorKind::GenericError),
        Some(chip) => match json_member(chip, core_prefix() + decimal_text(id as nat)) {
            None => Err(ErrorKind::InvalidValue),
            Some(entry) => match core_temperature_at(entry, id) {
                Some(ct) => Ok(ct),
                None => Err(ErrorKind::GenericError),
            },
        },
    }
}

/// The cores that a sensor output lists, in the order of its entries.
pub open spec fn sensor_core_ids(text: Seq<char>) -> Option<Seq<u8>> {
    match chip_of(text) {
        None => None,
        Some(chip) => match json_member_names(chip) {
            Some(names) => Some(core_ids(names)),
            None => None,
        },
    }
}

/// Whether `cs[from..]` is a plain decimal.
fn plain_decimal_from(cs: &Vec<char>, from: usize) -> (r: bool)
    requires
        from <= cs.len(),
    ensures
        r == plain_decimal(cs@.subrange(from as int, cs.len() as int)),
{
    let ghost t = cs@.subrange(from as int, cs.len() as int);
    let p = leading_digit_count(cs, from);
    if p == 0 {
        return false;
    }
    if from + p == cs.len() {
        return true;
    }
    assert(t[p as int] == cs@[from + p]);
    if cs[from + p] != '.' {
        return false;
    }
    if from + p + 1 >= cs.len() {
        return false;
    }
    let q = leading_digit_count(cs, from + p + 1);
    assert(t.skip(p + 1 as int) =~= cs@.subrange(from + p + 1, cs.len() as int));
    from + p + 1 + q == cs.len()
}

/// A number's text read as whole degrees.
pub fn read_truncated(t: &str) -> (r: Option<u8>)
    ensures
        r == truncated_reading(t@),
{
    let cs = text_chars(t);
    assert(cs@.subrange(0, cs.len() as int) =~= cs@);
    if cs.len() > 1 && cs[0] == '-' {
        assert(cs@.subrange(1, cs.len() as int) =~= cs@.skip(1));
        if plain_decimal_from(&cs, 1) {
            return Some(0);
        }
    }
    if plain_decimal_from(&cs, 0) {
        let p = leading_digit_count(&cs, 0);
        proof {
            lemma_leading_digits(cs@);
            assert(cs@.subrange(0, p as int) =~= cs@.take(p as int));
        }
        let v = capped_decimal(&cs, 0, p, 256);
        if v > 255 {
            Some(255)
        } else {
            Some(v as u8)
        }
    } else {
        None
    }
}

/// The name of a core's reading.
fn reading_field_name(id: u8, suffix: &str) -> (r: String)
    ensures
        r@ == reading_field(id, suffix@),
{
    let n = decimal_string(id as u64 + 2);
    let r = String::from_str("temp").concat(n.as_str()).concat("_").concat(suffix);
    assert(r@ =~= reading_field(id, suffix@));
    r
}

fn read_field(entry: &serde_json::Value, field: &str) -> (r: Option<u8>)
    ensures
        r == field_reading(*entry, field@),
{
    match member(entry, field) {
        Some(m) => match number_text(m) {
            Some(t) => read_truncated(t.as_str()),
            None => None,
        },
        None => None,
    }
}

fn read_core(entry: &serde_json::Value, id: u8) -> (r: Option<CoreTemperature>)
    ensures
        r == core_temperature_at(*entry, id),
{
    let temp = read_field(entry, reading_field_name(id, "input").as_str());
    let max = read_field(entry, reading_field_name(id, "max").as_str());
    let critical = read_field(entry, reading_field_name(id, "crit").as_str());
    match (temp, max, critical) {
        (Some(temp), Some(max), Some(critical)) => Some(CoreTemperature::new(temp, max, critical)),
        _ => None,
    }
}

/// The core index that an entry's name gives, if it names a core.
pub fn core_id(name: &str) -> (r: Option<u8>)
    ensures
        r == core_id_of(name@),
{
    let cs = text_chars(name);
    let prefix = text_chars("Core ");
    if !starts_with_chars(&cs, &prefix) {
        return None;
    }
    let from = prefix.len();
    assert(cs@.subrange(from as int, cs.len() as int) =~= cs@.skip(core_prefix().len() as int));
    match digits_value(&cs, from, 256) {
        Some(v) => if v > 255 {
            None
        } else {
            Some(v as u8)
        },
        None => None,
    }
}

fn malformed(description: &str) -> (r: Error)
    ensures
        r.spec_kind() == ErrorKind::GenericError,
{
    Error::without_help(ErrorKind::GenericError, String::from_str(description))
}

/// The readings over a longer list of names extend those over a shorter
/// one, and fail whenever those fail.
proof fn lemma_core_readings_prefix(chip: serde_json::Value, names: Seq<Seq<char>>, i: int, j: int)
    requires
        0 <= i <= j <= names.len(),
    ensures
        core_readings(chip, names.take(i)) is None ==> core_readings(chip, names.take(j)) is None,
        core_readings(chip, names.take(j)) matches Some(b) ==> core_readings(
            chip,
            names.take(i),
        ) matches Some(a) && a.len() <= b.len() && b.take(a.len() as int) == a,
    decreases j - i,
{
    if i < j {
        lemma_core_readings_prefix(chip, names, i, j - 1);
        assert(names.take(j).drop_last() =~= names.take(j - 1));
        if let Some(b) = core_readings(chip, names.take(j)) {
            let b1 = core_readings(chip, names.take(j - 1))->0;
            assert(b.take(b1.len() as int) =~= b1);
            let a = core_readings(chip, names.take(i))->0;
            assert(b.take(a.len() as int) =~= b1.take(a.len() as int));
        }
    } else {
        if let Some(b) = core_readings(chip, names.take(j)) {
            assert(b.take(b.len() as int) =~= b);
        }
    }
}

proof fn lemma_readings_map_keys(rs: Seq<(u8, CoreTemperature)>, id: u8)
    ensures
        readings_map(rs).contains_key(id) <==> exists|m: int| 0 <= m < rs.len() && rs[m].0 == id,
    decreases rs.len(),
{
    if rs.len() > 0 {
        lemma_readings_map_keys(rs.drop_last(), id);
        if readings_map(rs).contains_key(id) && id != rs.last().0 {
            let m = choose|m: int| 0 <= m < rs.drop_last().len() && rs.drop_last()[m].0 == id;
            assert(rs[m].0 == id);
        }
        if exists|m: int| 0 <= m < rs.len() && rs[m].0 == id {
            let m = choose|m: int| 0 <= m < rs.len() && rs[m].0 == id;
            if m < rs.len() - 1 {
                assert(rs.drop_last()[m].0 == id);
            }
        }
    }
}

pub open spec fn name_views(names: Seq<String>) -> Seq<Seq<char>> {
    names.map_values(|n: String| n@)
}

proof fn lemma_core_readings_step(
    chip: serde_json::Value,
    names: Seq<Seq<char>>,
    i: int,
    rs: Seq<(u8, CoreTemperature)>,
)
    requires
        0 <= i < names.len(),
        core_readings(chip, names.take(i)) == Some(rs),
    ensures
        core_readings(chip, names.take(i + 1)) == match core_id_of(names[i]) {
            None => Some(rs),
            Some(id) => match json_member(chip, names[i]) {
                Some(entry) => match core_temperature_at(entry, id) {
                    Some(ct) => Some(rs.push((id, ct))),
                    None => None,
                },
                None => None,
            },
        },
{
    assert(names.take(i + 1).drop_last() =~= names.take(i));
    assert(names.take(i + 1).last() == names[i]);
}

/// Once the readings over a prefix of the names fail, or name a core twice,
/// so do those over all of them.
proof fn lemma_core_readings_fail(chip: serde_json::Value, names: Seq<Seq<char>>, i: int)
    requires
        0 <= i <= names.len(),
        match core_readings(chip, names.take(i)) {
            None => true,
            Some(a) => !ids_distinct(a),
        },
    ensures
        match core_readings(chip, names) {
            None => true,
            Some(b) => !ids_distinct(b),
        },
{
    lemma_core_readings_prefix(chip, names, i, names.len() as int);
    assert(names.take(names.len() as int) =~= names);
    if let Some(b) = core_readings(chip, names) {
        let a = core_readings(chip, names.take(i))->0;
        let (x, y) = choose|x: int, y: int| 0 <= x < y < a.len() && a[x].0 == a[y].0;
        assert(b[x] == b.take(a.len() as int)[x]);
        assert(b[y] == b.take(a.len() as int)[y]);
    }
}

/// The readings of the cores among `names`, as a map, with the sum of their
/// current temperatures and their number.
fn collect_cores(chip: &serde_json::Value, names: &Vec<String>) -> (r: Option<
    (BTreeMap<u8, CoreTemperature>, u128, usize),
>)
    requires
        forall|k: int| 0 <= k < names.len() ==> (#[trigger] json_member(*chip, names@[k]@)) is Some,
    ensures
        match r {
            Some((cores, sum, count)) => core_readings(*chip, name_views(names@)) matches Some(rs)
                && ids_distinct(rs) && cores@ == readings_map(rs) && sum == temp_sum(rs) && count
                == rs.len() && sum <= 255 * count,
            None => match core_readings(*chip, name_views(names@)) {
                None => true,
                Some(rs) => !ids_distinct(rs),
            },
        },
{
    let ghost vnames = name_views(names@);
    let mut cores: BTreeMap<u8, CoreTemperature> = BTreeMap::new();
    let mut sum: u128 = 0;
    let mut count: usize = 0;
    let ghost mut rs: Seq<(u8, CoreTemperature)> = seq![];
    let mut i: usize = 0;
    assert(vnames.take(0) =~= Seq::<Seq<char>>::empty());
    while i < names.len()
        invariant
            i <= names.len(),
            vnames == name_views(names@),
            forall|k: int| 0 <= k < names.len() ==> (#[trigger] json_member(*chip, names@[k]@)) is Some,
            core_readings(*chip, vnames.take(i as int)) == Some(rs),
            ids_distinct(rs),
            cores@ == readings_map(rs),
            sum == temp_sum(rs),
            count == rs.len(),
            sum <= 255 * count,
            count <= i,
        decreases names.len() - i,
    {
        let name = names[i].as_str();
        proof {
            lemma_core_readings_step(*chip, vnames, i as int, rs);
            assert(vnames[i as int] == name@);
        }
        if let Some(id) = core_id(name) {
            let entry = match member(chip, name) {
                Some(e) => e,
                None => {
                    assert(json_member(*chip, names@[i as int]@) is Some);
                    return None;
                },
            };
            let ct = match read_core(entry, id) {
                Some(c) => c,
                None => {
                    proof {
                        lemma_core_readings_fail(*chip, vnames, i + 1);
                    }
                    return None;
                },
            };
            proof {
                lemma_readings_map_keys(rs, id);
            }
            if cores.contains_key(&id) {
                proof {
                    let m = choose|m: int| 0 <= m < rs.len() && rs[m].0 == id;
                    let rs1 = rs.push((id, ct));
                    assert(rs1[m].0 == rs1[rs.len() as int].0);
                    lemma_core_readings_fail(*chip, vnames, i + 1);
                }
                return None;
            }
            cores.insert(id, ct);
            sum = sum + ct.temp as u128;
            count = count + 1;
            proof {
                let rs1 = rs.push((id, ct));
                assert(rs1.drop_last() =~= rs);
                assert forall|a: int, b: int| 0 <= a < b < rs1.len() implies rs1[a].0
                    != rs1[b].0 by {
                    if b == rs.len() {
                        assert(rs1[a] == rs[a]);
                    } else {
                        assert(rs1[a] == rs[a] && rs1[b] == rs[b]);
                    }
                }
                rs = rs1;
            }
        }
        i = i + 1;
    }
    assert(vnames.take(names.len() as int) =~= vnames);
    Some((cores, sum, count))
}

/// Reads the temperatures out of the JSON output of `sensors -j`.
pub fn get_temps_from_sensors_output(sensors_output: SensorsOutput) -> (r: Result<
    Temperatures,
    Error,
>)
    ensures
        match r {
            Ok(t) => sensor_temperatures(sensors_output@) == Some((t.avg, t.cores@)),
            Err(e) => sensor_temperatures(sensors_output@) is None && e.spec_kind()
                == ErrorKind::GenericError,
        },
{
    let doc = match decode_json(sensors_output.as_str()) {
        Some(d) => d,
        None => return Err(malformed("the sensor output is not JSON")),
    };
    let chip = match member(&doc, "coretemp-isa-0000") {
        Some(c) => c,
        None => return Err(malformed("the sensor output has no core temperatures")),
    };
    let names = match member_names(chip) {
        Some(n) => n,
        None => return Err(malformed("the core temperatures are not an object")),
    };
    let (cores, sum, count) = match collect_cores(chip, &names) {
        Some(c) => c,
        None => return Err(malformed("a core entry lacks a reading, or repeats a core")),
    };
    let avg = match member(chip, "Package id 0") {
        Some(package) => match read_field(package, "temp1_input") {
            Some(a) => a,
            None => return Err(malformed("the package entry lacks a reading")),
        },
        None => {
            if count == 0 {
                return Err(malformed("the sensor output lists no core"));
            }
            let c = count as u128;
            assert(sum / c <= 255) by (nonlinear_arith)
                requires
                    sum <= 255 * c,
                    c > 0,
            ;
            (sum / c) as u8
        },
    };
    Ok(Temperatures { avg, cores })
}

/// Reads the temperatures of one core out of the JSON output of `sensors -j`.
pub fn get_core_temp_from_sensors_output(sensors_output: SensorsOutput, core_id: u8) -> (r: Result<
    CoreTemperature,
    Error,
>)
    ensures
        match r {
            Ok(c) => sensor_core_temperature(sensors_output@, core_id) == Ok::<
                CoreTemperature,
                ErrorKind,
            >(c),
            Err(e) => sensor_core_temperature(sensors_output@, core_id) == Err::<
                CoreTemperature,
                ErrorKind,
            >(e.spec_kind()),
        },
{
    let doc = match decode_json(sensors_output.as_str()) {
        Some(d) => d,
        None => return Err(malformed("the sensor output is not JSON")),
    };
    let chip = match member(&doc, "coretemp-isa-0000") {
        Some(c) => c,
        None => return Err(malformed("the sensor output has no core temperatures")),
    };
    let id_text = decimal_string(core_id as u64);
    let name = String::from_str("Core ").concat(id_text.as_str());
    match member(chip, name.as_str()) {
        Some(entry) => match read_core(entry, core_id) {
            Some(c) => Ok(c),
            None => Err(malformed("the core entry lacks a reading")),
        },
        None => Err(
            Error::without_help(
                ErrorKind::InvalidValue,
                name.concat(" is not valid!"),
            ),
        ),
    }
}

/// Lists the cores that the JSON output of `sensors -j` reports.
pub fn get_cores_from_sensors_output(sensors_output: SensorsOutput) -> (r: Result<Vec<u8>, Error>)
    ensures
        match r {
            Ok(ids) => sensor_core_ids(sensors_output@) == Some(ids@),
            Err(e) => sensor_core_ids(sensors_output@) is None && e.spec_kind()
                == ErrorKind::GenericError,
        },
{
    let doc = match decode_json(sensors_output.as_str()) {
        Some(d) => d,
        None => return Err(malformed("the sensor output is not JSON")),
    };
    let chip = match member(&doc, "coretemp-isa-0000") {
        Some(c) => c,
        None => return Err(malformed("the sensor output has no core temperatures")),
    };
    let names = match member_names(chip) {
        Some(n) => n,
        None => return Err(malformed("the core temperatures are not an object")),
    };
    let ghost vnames = name_views(names@);
    let mut ids: Vec<u8> = Vec::new();
    let mut i: usize = 0;
    assert(vnames.take(0) =~= Seq::<Seq<char>>::empty());
    while i < names.len()
        invariant
            i <= names.len(),
            vnames == name_views(names@),
            ids@ == core_ids(vnames.take(i as int)),
        decreases names.len() - i,
    {
        assert(vnames.take(i + 1).drop_last() =~= vnames.take(i as int));
        assert(vnames.take(i + 1).last() == names@[i as int]@);
        match core_id(names[i].as_str()) {
            Some(id) => ids.push(id),
            None => {},
        }
        i = i + 1;
    }
    assert(vnames.take(names.len() as int) =~= vnames);
    Ok(ids)
}

pub open spec fn reading_ids(rs: Seq<(u8, CoreTemperature)>) -> Seq<u8> {
    rs.map_values(|x: (u8, CoreTemperature)| x.0)
}

proof fn lemma_core_readings_ids(chip: serde_json::Value, names: Seq<Seq<char>>)
    ensures
        core_readings(chip, names) matches Some(rs) ==> reading_ids(rs) == core_ids(names),
    decreases names.len(),
{
    if names.len() > 0 {
        lemma_core_readings_ids(chip, names.drop_last());
        if let Some(rs) = core_readings(chip, names) {
            let prev = core_readings(chip, names.drop_last())->0;
            if core_id_of(names.last()) is Some {
                assert(reading_ids(rs) =~= reading_ids(prev).push(rs.last().0));
            }
        }
    }
}

/// The cores in a snapshot of temperatures are exactly the cores that the
/// same output lists: entries whose names do not name a core add nothing.
pub proof fn lemma_cores_are_listed_cores(text: Seq<char>, id: u8)
    requires
        sensor_temperatures(text) is Some,
    ensures
        match (sensor_temperatures(text), sensor_core_ids(text)) {
            (Some((_avg, cores)), Some(ids)) => cores.contains_key(id) <==> ids.contains(id),
            _ => false,
        },
{
    let chip = chip_of(text)->0;
    let names = json_member_names(chip)->0;
    let rs = core_readings(chip, names)->0;
    lemma_core_readings_ids(chip, names);
    lemma_readings_map_keys(rs, id);
    let ids = core_ids(names);
    if ids.contains(id) {
        let m = choose|m: int| 0 <= m < ids.len() && ids[m] == id;
        assert(reading_ids(rs)[m] == rs[m].0);
    }
    if exists|m: int| 0 <= m < rs.len() && rs[m].0 == id {
        let m = choose|m: int| 0 <= m < rs.len() && rs[m].0 == id;
        assert(reading_ids(rs)[m] == id);
    }
}

/// When the core section has a package entry, the overall temperature is that
/// entry's reading, whatever the cores read.
pub proof fn lemma_package_reading_is_average(text: Seq<char>)
    requires
        sensor_temperatures(text) is Some,
        chip_of(text) matches Some(chip) && json_member(chip, package_entry()) is Some,
    ensures
        match (sensor_temperatures(text), chip_of(text)) {
            (Some((avg, _cores)), Some(chip)) => field_reading(
                json_member(chip, package_entry())->0,
                package_field(),
            ) == Some(avg),
            _ => false,
        },
{
}

} // verus!
