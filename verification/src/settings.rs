//! Launcher settings and the rule that turns them into a `TZ` value.

use vstd::prelude::*;
use crate::text::{decimal, lemma_decimal_injective, push_decimal, same_text, text_result};

verus! {

/// The settings that the launcher stores and starts the client with.
///
/// `mode` is `"zone"` (use `zone_id`, a name from the zone catalog) or
/// `"offset"` (use the fixed whole-hour UTC offset `offset`).
#[derive(Debug)]
pub struct Settings {
    pub mode: String,
    pub zone_id: String,
    pub offset: i32,
    pub executable: String,
    pub dream_skin_compatible: bool,
}

impl Clone for Settings {
    fn clone(&self) -> (res: Self)
        ensures
            res == *self,
    {
        Settings {
            mode: self.mode.clone(),
            zone_id: self.zone_id.clone(),
            offset: self.offset,
            executable: self.executable.clone(),
            dream_skin_compatible: self.dream_skin_compatible,
        }
    }
}

impl Default for Settings {
    /// Zone mode, `Asia/Shanghai`, offset 8, no executable chosen, no skin compatibility.
    fn default() -> (s: Self)
        ensures
            s.mode@ == "zone"@,
            s.zone_id@ == "Asia/Shanghai"@,
            s.offset == 8,
            s.executable@ == Seq::<char>::empty(),
            !s.dream_skin_compatible,
    {
        Settings {
            mode: "zone".to_owned(),
            zone_id: "Asia/Shanghai".to_owned(),
            offset: 8,
            executable: String::new(),
            dream_skin_compatible: false,
        }
    }
}

/// The names of the time zones that the launcher offers.
#[derive(Debug)]
pub struct ZoneCatalog {
    pub ids: Vec<String>,
}

impl View for ZoneCatalog {
    type V = Seq<Seq<char>>;

    open spec fn view(&self) -> Seq<Seq<char>> {
        self.ids@.map_values(|id: String| id@)
    }
}

impl ZoneCatalog {
    /// Whether `id` is one of the catalog's zone names.
    pub fn contains(&self, id: &str) -> (res: bool)
        ensures
            res == self@.contains(id@),
    {
        let mut i: usize = 0;
        while i < self.ids.len()
            invariant
                i <= self.ids.len(),
                forall|j: int| 0 <= j < i ==> self@[j] != id@,
            decreases self.ids.len() - i,
        {
            if same_text(self.ids[i].as_str(), id) {
                assert(self@[i as int] == id@);
                return true;
            }
            i = i + 1;
        }
        assert forall|k: int| 0 <= k < self@.len() implies self@[k] != id@ by {}
        false
    }
}

/// The message shown when the settings name no valid time zone.
pub open spec fn invalid_zone_message() -> Seq<char> {
    "请选择有效时区或 -12 至 +14 小时的 UTC 偏移。"@
}

/// The smallest and largest accepted fixed offsets, in hours.
pub open spec fn offset_in_range(offset: int) -> bool {
    -12 <= offset <= 14
}

/// The IANA name of the fixed zone `offset` hours east of UTC.
///
/// The `Etc/GMT` names count hours west of Greenwich, so their sign is the
/// opposite of the offset's.
pub open spec fn offset_zone_name(offset: int) -> Seq<char> {
    if offset == 0 {
        "Etc/UTC"@
    } else if offset > 0 {
        "Etc/GMT-"@ + decimal(offset as nat)
    } else {
        "Etc/GMT+"@ + decimal((-offset) as nat)
    }
}

/// What `tz` gives for settings with these fields and this catalog.
pub open spec fn spec_tz(mode: Seq<char>, zone_id: Seq<char>, offset: int, zones: Seq<Seq<char>>) -> Result<Seq<char>, Seq<char>> {
    if mode == "offset"@ && offset_in_range(offset) {
        Ok(offset_zone_name(offset))
    } else if mode == "zone"@ && zones.contains(zone_id) {
        Ok(zone_id)
    } else {
        Err(invalid_zone_message())
    }
}

/// The `TZ` value for the client started with settings `s`, or the error
/// message when they name no valid zone.
pub fn tz(s: &Settings, zones: &ZoneCatalog) -> (res: Result<String, String>)
    ensures
        text_result(res) == spec_tz(s.mode@, s.zone_id@, s.offset as int, zones@),
{
    if same_text(s.mode.as_str(), "offset") && -12 <= s.offset && s.offset <= 14 {
        if s.offset == 0 {
            Ok("Etc/UTC".to_owned())
        } else if s.offset > 0 {
            let mut name = "Etc/GMT-".to_owned();
            push_decimal(&mut name, s.offset as u64);
            Ok(name)
        } else {
            let mut name = "Etc/GMT+".to_owned();
            push_decimal(&mut name, (-s.offset) as u64);
            Ok(name)
        }
    } else if same_text(s.mode.as_str(), "zone") && zones.contains(s.zone_id.as_str()) {
        Ok(s.zone_id.clone())
    } else {
        Err("请选择有效时区或 -12 至 +14 小时的 UTC 偏移。".to_owned())
    }
}

/// Two different fixed offsets give the client two different zone names.
pub proof fn law_offset_names_distinct(a: int, b: int)
    requires
        offset_in_range(a),
        offset_in_range(b),
        a != b,
    ensures
        offset_zone_name(a) != offset_zone_name(b),
{
    reveal_strlit("Etc/UTC");
    reveal_strlit("Etc/GMT-");
    reveal_strlit("Etc/GMT+");
    let na = offset_zone_name(a);
    let nb = offset_zone_name(b);
    if a == 0 || b == 0 {
        assert(na[4] != nb[4]);
    } else if (a > 0) != (b > 0) {
        assert(na[7] != nb[7]);
    } else {
        let da = if a > 0 { decimal(a as nat) } else { decimal((-a) as nat) };
        let db = if b > 0 { decimal(b as nat) } else { decimal((-b) as nat) };
        if na == nb {
            assert(na.skip(8) =~= da);
            assert(nb.skip(8) =~= db);
            if a > 0 {
                lemma_decimal_injective(a as nat, b as nat);
            } else {
                lemma_decimal_injective((-a) as nat, (-b) as nat);
            }
        }
    }
}

/// In offset mode the settings are accepted exactly when the offset lies in
/// -12..=14, and the zone is then the fixed `Etc` zone of that offset; in
/// zone mode they are accepted exactly when the catalog lists the zone, which
/// is then used as it is.
pub proof fn law_tz_accepts(mode: Seq<char>, zone_id: Seq<char>, offset: int, zones: Seq<Seq<char>>)
    ensures
        mode == "offset"@ ==> (spec_tz(mode, zone_id, offset, zones) is Ok <==> offset_in_range(offset)),
        mode == "offset"@ && offset_in_range(offset) ==> spec_tz(mode, zone_id, offset, zones) == Ok::<Seq<char>, Seq<char>>(offset_zone_name(offset)),
        mode == "zone"@ ==> (spec_tz(mode, zone_id, offset, zones) is Ok <==> zones.contains(zone_id)),
        mode == "zone"@ && zones.contains(zone_id) ==> spec_tz(mode, zone_id, offset, zones) == Ok::<Seq<char>, Seq<char>>(zone_id),
        mode != "offset"@ && mode != "zone"@ ==> spec_tz(mode, zone_id, offset, zones) == Err::<Seq<char>, Seq<char>>(invalid_zone_message()),
{
    reveal_strlit("offset");
    reveal_strlit("zone");
    assert("offset"@.len() != "zone"@.len());
}

} // verus!
