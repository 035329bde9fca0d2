//! The player's settings: volumes kept as script values, and the volume
//! each audio track is given from them.
use vstd::prelude::*;
use crate::audio::Tracks;
use crate::script::table::Table;
use crate::script::value::{Decimal, ScriptValue, ValueV, pow10, value_number};

verus! {

/// The setting of the music volume.
pub const BGM_VOLUME: &'static str = "bgm_volume";

/// The setting of the ambience volume.
pub const ENV_VOLUME: &'static str = "env_volume";

/// The setting of the sound-effect volume.
pub const EFFECT_VOLUME: &'static str = "effect_volume";

/// The decimal 1.
pub open spec fn one() -> Decimal {
    Decimal { mantissa: 1, scale: 0 }
}

/// `d` clamped to the range from 0 to 1.
pub open spec fn clamp_unit(d: Decimal) -> Decimal {
    if d.mantissa < 0 {
        Decimal { mantissa: 0, scale: 0 }
    } else if d.mantissa > pow10(d.scale as nat) {
        one()
    } else {
        d
    }
}

fn clamp_volume(d: Decimal) -> (r: Decimal)
    ensures
        r == clamp_unit(d),
{
    if d.mantissa < 0 {
        return Decimal { mantissa: 0, scale: 0 };
    }
    let mut p: i128 = 1;
    let mut k: u32 = 0;
    while k < d.scale && p <= 9_223_372_036_854_775_807
        invariant
            k <= d.scale,
            p == pow10(k as nat),
            p >= 1,
        decreases d.scale - k,
    {
        p = p * 10;
        k = k + 1;
    }
    proof {
        if k < d.scale {
            crate::script::value::lemma_pow10_mono(k as nat, d.scale as nat);
        }
    }
    if (d.mantissa as i128) > p {
        Decimal { mantissa: 1, scale: 0 }
    } else {
        d
    }
}

/// The tracks whose volume the setting `name` sets.
pub open spec fn volume_targets(name: Seq<char>) -> Seq<Tracks> {
    if name == BGM_VOLUME@ {
        seq![Tracks::Bgm]
    } else if name == ENV_VOLUME@ {
        seq![Tracks::EnvEffect]
    } else if name == EFFECT_VOLUME@ {
        seq![Tracks::Effect, Tracks::Effect1, Tracks::Effect2]
    } else {
        Seq::empty()
    }
}

/// The volumes that the setting `name` of value `v` gives: each of its
/// tracks gets the number, clamped to the range from 0 to 1.
pub open spec fn field_plan(name: Seq<char>, v: ValueV) -> Seq<(Tracks, Decimal)> {
    volume_targets(name).map_values(|t: Tracks| (t, clamp_unit(value_number(v)->0)))
}

/// The message for a setting that is not a number.
pub open spec fn not_number_message(name: Seq<char>) -> Seq<char> {
    name + " must be number"@
}

/// The volumes that the settings `ks[..n]` of `fields` give, in that order.
pub open spec fn fields_plan(fields: Map<Seq<char>, ValueV>, ks: Seq<Seq<char>>, n: nat) -> Seq<(Tracks, Decimal)>
    decreases n,
{
    if n == 0 || n > ks.len() {
        Seq::empty()
    } else {
        fields_plan(fields, ks, (n - 1) as nat) + field_plan(ks[n - 1], fields[ks[n - 1]])
    }
}

/// Whether `ks` lists every key of `fields` once.
pub open spec fn lists_keys(fields: Map<Seq<char>, ValueV>, ks: Seq<Seq<char>>) -> bool {
    &&& ks.len() == fields.dom().len()
    &&& forall|i: int| 0 <= i < ks.len() ==> fields.contains_key(#[trigger] ks[i])
    &&& forall|k: Seq<char>| fields.contains_key(k) ==> exists|i: int| 0 <= i < ks.len() && #[trigger] ks[i] == k
    &&& forall|i: int, j: int| 0 <= i < ks.len() && 0 <= j < ks.len() && i != j ==> #[trigger] ks[i] != #[trigger] ks[j]
}

/// The volumes a setting gives when it is applied: an error, naming it,
/// when its value is not a number; otherwise each of its tracks with the
/// number clamped to the range from 0 to 1 (none for a setting that sets
/// no volume).
fn apply_known_field(var_name: &str, value: &ScriptValue) -> (r: Result<Vec<(Tracks, Decimal)>, String>)
    ensures
        match r {
            Ok(v) => value_number(value@) is Some && v@ == field_plan(var_name@, value@),
            Err(e) => value_number(value@) is None && e@ == not_number_message(var_name@),
        },
{
    let number = match value.to_number() {
        Some(n) => n,
        None => {
            let mut e = String::from_str(var_name);
            e.append(" must be number");
            return Err(e);
        },
    };
    let volume = clamp_volume(number);
    let mut v: Vec<(Tracks, Decimal)> = Vec::new();
    if crate::script::text::same_text(var_name, BGM_VOLUME) {
        v.push((Tracks::Bgm, volume));
    } else if crate::script::text::same_text(var_name, ENV_VOLUME) {
        v.push((Tracks::EnvEffect, volume));
    } else if crate::script::text::same_text(var_name, EFFECT_VOLUME) {
        v.push((Tracks::Effect, volume));
        v.push((Tracks::Effect1, volume));
        v.push((Tracks::Effect2, volume));
    }
    assert(v@ =~= field_plan(var_name@, value@));
    Ok(v)
}

/// The player's settings, by name.
pub struct GameSetting {
    pub fields: Table,
}

/// The values of the settings as they are stored in the settings file.
#[derive(Clone, Copy, Debug, PartialEq, Eq, Structural)]
pub struct GameSettingFile {
    pub bgm_volume: Decimal,
    pub env_volume: Decimal,
    pub effect_volume: Decimal,
}

impl Default for GameSettingFile {
    fn default() -> (r: Self)
        ensures
            r.bgm_volume == one() && r.env_volume == one() && r.effect_volume == one(),
    {
        GameSettingFile {
            bgm_volume: Decimal { mantissa: 1, scale: 0 },
            env_volume: Decimal { mantissa: 1, scale: 0 },
            effect_volume: Decimal { mantissa: 1, scale: 0 },
        }
    }
}

/// The number that the setting `name` holds, or 1.
pub open spec fn number_or_one(fields: Map<Seq<char>, ValueV>, name: Seq<char>) -> Decimal {
    if fields.contains_key(name) && value_number(fields[name]) is Some {
        value_number(fields[name])->0
    } else {
        one()
    }
}

impl GameSetting {
    /// The settings read from the settings file: the three volumes.
    pub fn from_file(file: GameSettingFile) -> (r: GameSetting)
        ensures
            r.fields@ == Map::<Seq<char>, ValueV>::empty().insert(BGM_VOLUME@, ValueV::Float(file.bgm_volume)).insert(
                ENV_VOLUME@,
                ValueV::Float(file.env_volume),
            ).insert(EFFECT_VOLUME@, ValueV::Float(file.effect_volume)),
    {
        let mut fields = Table::with_tuid(0);
        fields.set(String::from_str(BGM_VOLUME), ScriptValue::Float(file.bgm_volume));
        fields.set(String::from_str(ENV_VOLUME), ScriptValue::Float(file.env_volume));
        fields.set(String::from_str(EFFECT_VOLUME), ScriptValue::Float(file.effect_volume));
        GameSetting { fields }
    }

    /// The values to store in the settings file: each volume's number, or 1
    /// when it is missing or not a number.
    pub fn to_file(&self) -> (r: GameSettingFile)
        ensures
            r.bgm_volume == number_or_one(self.fields@, BGM_VOLUME@),
            r.env_volume == number_or_one(self.fields@, ENV_VOLUME@),
            r.effect_volume == number_or_one(self.fields@, EFFECT_VOLUME@),
    {
        GameSettingFile {
            bgm_volume: self.number_or_one(BGM_VOLUME),
            env_volume: self.number_or_one(ENV_VOLUME),
            effect_volume: self.number_or_one(EFFECT_VOLUME),
        }
    }

    fn number_or_one(&self, name: &str) -> (r: Decimal)
        ensures
            r == number_or_one(self.fields@, name@),
    {
        match self.get_number(name) {
            Some(n) => n,
            None => Decimal { mantissa: 1, scale: 0 },
        }
    }

    /// The number the setting `var_name` holds, if it holds one.
    pub fn get_number(&self, var_name: &str) -> (r: Option<Decimal>)
        ensures
            r == (if self.fields@.contains_key(var_name@) {
                value_number(self.fields@[var_name@])
            } else {
                None
            }),
    {
        match self.fields.get_field(var_name) {
            Some(v) => v.to_number(),
            None => None,
        }
    }

    /// The volumes that applying every setting gives, taken in some order
    /// of the settings: an error, naming a setting, when one is not a
    /// number.
    pub fn apply_setting(&self) -> (r: Result<Vec<(Tracks, Decimal)>, String>)
        ensures
            match r {
                Ok(v) => exists|ks: Seq<Seq<char>>|
                    lists_keys(self.fields@, ks) && v@ == fields_plan(self.fields@, ks, ks.len()),
                Err(e) => exists|k: Seq<char>|
                    self.fields@.contains_key(k) && value_number(self.fields@[k]) is None && e@
                        == not_number_message(k),
            },
            (forall|k: Seq<char>| self.fields@.contains_key(k) ==> value_number(#[trigger] self.fields@[k]) is Some)
                <==> r is Ok,
    {
        let keys = self.fields.keys();
        let ghost ks = keys@.map_values(|s: String| s@);
        let mut out: Vec<(Tracks, Decimal)> = Vec::new();
        let mut i: usize = 0;
        while i < keys.len()
            invariant
                i <= keys@.len(),
                ks == keys@.map_values(|s: String| s@),
                forall|j: int| 0 <= j < keys@.len() ==> self.fields@.contains_key(#[trigger] keys@[j]@),
                out@ == fields_plan(self.fields@, ks, i as nat),
                forall|j: int| 0 <= j < i ==> value_number(#[trigger] self.fields@[keys@[j]@]) is Some,
            decreases keys@.len() - i,
        {
            let value = match self.fields.get_field(keys[i].as_str()) {
                Some(v) => v,
                None => {
                    return Err(String::new());
                },
            };
            match apply_known_field(keys[i].as_str(), &value) {
                Ok(v) => {
                    let mut w = v;
                    out.append(&mut w);
                    proof {
                        assert(ks[i as int] == keys@[i as int]@);
                        assert(out@ =~= fields_plan(self.fields@, ks, (i + 1) as nat));
                    }
                },
                Err(e) => {
                    return Err(e);
                },
            }
            i = i + 1;
        }
        proof {
            assert forall|a: int| 0 <= a < ks.len() implies self.fields@.contains_key(#[trigger] ks[a]) by {
                assert(ks[a] == keys@[a]@);
            }
            assert forall|k: Seq<char>| self.fields@.contains_key(k) implies exists|a: int|
                0 <= a < ks.len() && #[trigger] ks[a] == k by {
                let a = choose|a: int| 0 <= a < keys@.len() && #[trigger] keys@[a]@ == k;
                assert(ks[a] == k);
            }
            assert forall|a: int, b: int| 0 <= a < ks.len() && 0 <= b < ks.len() && a != b implies #[trigger] ks[a]
                != #[trigger] ks[b] by {
                assert(ks[a] == keys@[a]@ && ks[b] == keys@[b]@);
            }
            assert(lists_keys(self.fields@, ks));
            assert forall|k: Seq<char>| self.fields@.contains_key(k) implies value_number(
                #[trigger] self.fields@[k],
            ) is Some by {
                let a = choose|a: int| 0 <= a < keys@.len() && #[trigger] keys@[a]@ == k;
                assert(value_number(self.fields@[keys@[a]@]) is Some);
            }
        }
        Ok(out)
    }

    /// Sets the setting `var_name` to `value` and gives the volumes it
    /// sets: an error when it is not a number (the setting is kept all the
    /// same).
    pub fn apply_field(&mut self, var_name: String, value: ScriptValue) -> (r: Result<Vec<(Tracks, Decimal)>, String>)
        ensures
            final(self).fields@ == old(self).fields@.insert(var_name@, value@),
            match r {
                Ok(v) => value_number(value@) is Some && v@ == field_plan(var_name@, value@),
                Err(e) => value_number(value@) is None && e@ == not_number_message(var_name@),
            },
    {
        self.fields.set(var_name.clone(), value.clone());
        apply_known_field(var_name.as_str(), &value)
    }
}

impl Default for GameSetting {
    fn default() -> (r: Self)
        ensures
            r.fields@ == Map::<Seq<char>, ValueV>::empty().insert(BGM_VOLUME@, ValueV::Float(one())).insert(
                ENV_VOLUME@,
                ValueV::Float(one()),
            ).insert(EFFECT_VOLUME@, ValueV::Float(one())),
    {
        GameSetting::from_file(GameSettingFile::default())
    }
}


/// The settings file is read back as written: settings made from the
/// file's values give those same values when they are stored again.
pub proof fn file_round_trip(file: GameSettingFile, fields: Map<Seq<char>, ValueV>)
    requires
        fields == Map::<Seq<char>, ValueV>::empty().insert(BGM_VOLUME@, ValueV::Float(file.bgm_volume)).insert(
            ENV_VOLUME@,
            ValueV::Float(file.env_volume),
        ).insert(EFFECT_VOLUME@, ValueV::Float(file.effect_volume)),
    ensures
        number_or_one(fields, BGM_VOLUME@) == file.bgm_volume,
        number_or_one(fields, ENV_VOLUME@) == file.env_volume,
        number_or_one(fields, EFFECT_VOLUME@) == file.effect_volume,
{
    reveal_strlit("bgm_volume");
    reveal_strlit("env_volume");
    reveal_strlit("effect_volume");
    assert(BGM_VOLUME@[0] != ENV_VOLUME@[0] && BGM_VOLUME@[0] != EFFECT_VOLUME@[0]);
    assert(ENV_VOLUME@[1] != EFFECT_VOLUME@[1]);
}

/// A setting reads back as applied: after `apply_field` sets `name` to
/// `v`, the setting is there and its number is that of `v` (none when `v`
/// is no number), whether or not the volumes could be applied.
pub proof fn applied_field_reads_back(fields: Map<Seq<char>, ValueV>, name: Seq<char>, v: ValueV)
    ensures
        fields.insert(name, v).contains_key(name),
        value_number(fields.insert(name, v)[name]) == value_number(v),
{
}

} // verus!
