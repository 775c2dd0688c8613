//! The integrity digest: the year's day views as compact JSON, hashed.

use crate::domain::DailyPrayerTime;
use crate::output_dtos::DayOutputDto;
use crate::output_dtos::EventOutputDto;
use crate::output_dtos::PrayerTimesOutputDto;
use crate::output_dtos::are_day_views;
use crate::output_dtos::day_views;
use crate::output_dtos::is_day_view;
use crate::text::decimal;
use crate::text::push_decimal;
use sha1::Digest;
use sha1::Sha1;
use vstd::prelude::*;

verus! {

/// What serde_json writes for a string: the JSON string literal.
pub uninterp spec fn json_string(s: Seq<char>) -> Seq<char>;

/// The SHA-1 of the UTF-8 bytes of a text, in lowercase hexadecimal.
pub uninterp spec fn sha1_hex(text: Seq<char>) -> Seq<char>;

/// A text that JSON writes between quotes as it is: no quote, no backslash,
/// no control character.
pub open spec fn plain_text(s: Seq<char>) -> bool {
    forall|i: int| 0 <= i < s.len() ==> #[trigger] s[i] != '"' && s[i] != '\\' && ' ' <= s[i]
}

/// The JSON string literal of `s`.
pub open spec fn json_text(s: Seq<char>) -> Seq<char> {
    if plain_text(s) {
        seq!['"'] + s + seq!['"']
    } else {
        json_string(s)
    }
}

/// Relies on serde_json's `Display` for `Value::String`: the compact JSON
/// string literal, which escapes only quotes, backslashes and control
/// characters.
#[verifier::external_body]
fn quote(s: &String) -> (r: String)
    ensures
        plain_text(s@) ==> r@ == seq!['"'] + s@ + seq!['"'],
        !plain_text(s@) ==> r@ == json_string(s@),
{
    serde_json::Value::String(s.clone()).to_string()
}

/// Relies on sha1's `Sha1` (`new`, `update`, `finalize` of `Digest`) over the
/// text's bytes, written with `LowerHex`.
#[verifier::external_body]
fn sha1_of(text: &String) -> (r: String)
    ensures
        r@ == sha1_hex(text@),
{
    let mut hasher = Sha1::new();
    hasher.update(text.as_bytes());
    format!("{:x}", hasher.finalize())
}

/// `"key":value` pairs, each key with its leading comma where it has one.
pub open spec fn fields_json(keys: Seq<Seq<char>>, vals: Seq<Seq<char>>) -> Seq<char>
    decreases keys.len(),
{
    if keys.len() == 0 || vals.len() == 0 {
        Seq::empty()
    } else {
        keys[0] + json_text(vals[0]) + fields_json(keys.drop_first(), vals.drop_first())
    }
}

pub open spec fn prayer_keys() -> Seq<Seq<char>> {
    seq![
        "\"fajr\":"@,
        ",\"sunrise\":"@,
        ",\"dhuhr\":"@,
        ",\"asr\":"@,
        ",\"maghrib\":"@,
        ",\"ishaa\":"@,
    ]
}

pub open spec fn prayer_values(p: PrayerTimesOutputDto) -> Seq<Seq<char>> {
    seq![p.fajr@, p.sunrise@, p.dhuhr@, p.asr@, p.maghrib@, p.ishaa@]
}

pub open spec fn prayer_json(p: PrayerTimesOutputDto) -> Seq<char> {
    "{"@ + fields_json(prayer_keys(), prayer_values(p)) + "}"@
}

pub open spec fn week_json(w: Option<u64>) -> Seq<char> {
    match w {
        None => Seq::empty(),
        Some(n) => ",\"weekId\":"@ + decimal(n as nat),
    }
}

pub open spec fn event_json(e: Option<EventOutputDto>) -> Seq<char> {
    match e {
        None => Seq::empty(),
        Some(e) => ",\"event\":{\"ar\":"@ + json_text(e.ar@) + match e.en {
            None => Seq::empty(),
            Some(t) => ",\"en\":"@ + json_text(t@),
        } + "}"@,
    }
}

/// A day view as compact JSON, fields in declaration order, absent options
/// left out.
pub open spec fn day_json(v: DayOutputDto) -> Seq<char> {
    "{\"id\":"@ + decimal(v.id as nat) + ",\"gregorian\":"@ + json_text(v.gregorian@)
        + ",\"hijri\":"@ + json_text(v.hijri@) + ",\"prayerTimes\":"@ + prayer_json(
        v.prayer_times,
    ) + week_json(v.week_id) + event_json(v.event) + "}"@
}

/// The day views separated by commas.
pub open spec fn joined_json(vs: Seq<DayOutputDto>) -> Seq<char>
    decreases vs.len(),
{
    if vs.len() == 0 {
        Seq::empty()
    } else if vs.len() == 1 {
        day_json(vs[0])
    } else {
        joined_json(vs.drop_last()) + ","@ + day_json(vs.last())
    }
}

/// The year's day views as one compact JSON array.
pub open spec fn days_json(vs: Seq<DayOutputDto>) -> Seq<char> {
    "["@ + joined_json(vs) + "]"@
}

/// The digest of a year view.
pub open spec fn year_digest(vs: Seq<DayOutputDto>) -> Seq<char> {
    sha1_hex(days_json(vs))
}

fn push_quoted(text: &mut String, s: &String)
    ensures
        final(text)@ == old(text)@ + json_text(s@),
{
    let q = quote(s);
    text.append(q.as_str());
}

proof fn lemma_prayer_json_unfold(p: PrayerTimesOutputDto)
    ensures
        prayer_json(p) =~= "{"@ + "\"fajr\":"@ + json_text(p.fajr@) + ",\"sunrise\":"@ + json_text(
            p.sunrise@,
        ) + ",\"dhuhr\":"@ + json_text(p.dhuhr@) + ",\"asr\":"@ + json_text(p.asr@)
            + ",\"maghrib\":"@ + json_text(p.maghrib@) + ",\"ishaa\":"@ + json_text(p.ishaa@)
            + "}"@,
{
    let k0 = prayer_keys();
    let v0 = prayer_values(p);
    let k1 = k0.drop_first();
    let v1 = v0.drop_first();
    let k2 = k1.drop_first();
    let v2 = v1.drop_first();
    let k3 = k2.drop_first();
    let v3 = v2.drop_first();
    let k4 = k3.drop_first();
    let v4 = v3.drop_first();
    let k5 = k4.drop_first();
    let v5 = v4.drop_first();
    let k6 = k5.drop_first();
    let v6 = v5.drop_first();
    assert(fields_json(k6, v6) == Seq::<char>::empty());
    assert(fields_json(k5, v5) == k5[0] + json_text(v5[0]) + fields_json(k6, v6));
    assert(fields_json(k4, v4) == k4[0] + json_text(v4[0]) + fields_json(k5, v5));
    assert(fields_json(k3, v3) == k3[0] + json_text(v3[0]) + fields_json(k4, v4));
    assert(fields_json(k2, v2) == k2[0] + json_text(v2[0]) + fields_json(k3, v3));
    assert(fields_json(k1, v1) == k1[0] + json_text(v1[0]) + fields_json(k2, v2));
    assert(fields_json(k0, v0) == k0[0] + json_text(v0[0]) + fields_json(k1, v1));
}

fn push_prayer_json(text: &mut String, p: &PrayerTimesOutputDto)
    ensures
        final(text)@ == old(text)@ + prayer_json(*p),
{
    let ghost start = text@;
    text.append("{");
    text.append("\"fajr\":");
    push_quoted(text, &p.fajr);
    text.append(",\"sunrise\":");
    push_quoted(text, &p.sunrise);
    text.append(",\"dhuhr\":");
    push_quoted(text, &p.dhuhr);
    text.append(",\"asr\":");
    push_quoted(text, &p.asr);
    text.append(",\"maghrib\":");
    push_quoted(text, &p.maghrib);
    text.append(",\"ishaa\":");
    push_quoted(text, &p.ishaa);
    text.append("}");
    proof {
        lemma_prayer_json_unfold(*p);
    }
    assert(text@ =~= start + prayer_json(*p));
}

fn push_event_json(text: &mut String, event: &Option<EventOutputDto>)
    ensures
        final(text)@ == old(text)@ + event_json(*event),
{
    let ghost start = text@;
    match event {
        None => {},
        Some(e) => {
            text.append(",\"event\":{\"ar\":");
            push_quoted(text, &e.ar);
            match &e.en {
                None => {},
                Some(t) => {
                    text.append(",\"en\":");
                    push_quoted(text, t);
                },
            }
            text.append("}");
        },
    }
    assert(text@ =~= start + event_json(*event));
}

fn push_day_json(text: &mut String, v: &DayOutputDto)
    ensures
        final(text)@ == old(text)@ + day_json(*v),
{
    let ghost start = text@;
    text.append("{\"id\":");
    push_decimal(text, v.id);
    text.append(",\"gregorian\":");
    push_quoted(text, &v.gregorian);
    text.append(",\"hijri\":");
    push_quoted(text, &v.hijri);
    text.append(",\"prayerTimes\":");
    push_prayer_json(text, &v.prayer_times);
    let ghost before_week = text@;
    match v.week_id {
        None => {},
        Some(w) => {
            text.append(",\"weekId\":");
            push_decimal(text, w);
        },
    }
    assert(text@ =~= before_week + week_json(v.week_id));
    push_event_json(text, &v.event);
    text.append("}");
    assert(text@ =~= start + day_json(*v));
}

/// The year's day views as one compact JSON array.
pub fn days_json_text(views: &Vec<DayOutputDto>) -> (r: String)
    ensures
        r@ == days_json(views@),
{
    let mut text = String::new();
    text.append("[");
    let mut i: usize = 0;
    while i < views.len()
        invariant
            i <= views@.len(),
            text@ == "["@ + joined_json(views@.subrange(0, i as int)),
        decreases views@.len() - i,
    {
        if i > 0 {
            text.append(",");
        }
        push_day_json(&mut text, &views[i]);
        proof {
            let s = views@.subrange(0, i + 1);
            assert(s.drop_last() =~= views@.subrange(0, i as int));
            if i == 0 {
                assert(joined_json(views@.subrange(0, 0)) == Seq::<char>::empty());
            }
        }
        assert(text@ =~= "["@ + joined_json(views@.subrange(0, i + 1)));
        i = i + 1;
    }
    text.append("]");
    assert(views@.subrange(0, i as int) =~= views@);
    text
}

/// The digest of a year view: the SHA-1, in hexadecimal, of its compact JSON.
pub fn digest_views(views: &Vec<DayOutputDto>) -> (r: String)
    ensures
        r@ == year_digest(views@),
{
    let text = days_json_text(views);
    sha1_of(&text)
}

/// The digest of the year: that of the day views of its days.
pub fn digest_days(days: &Vec<DailyPrayerTime>) -> (r: String)
    ensures
        exists|vs: Seq<DayOutputDto>| are_day_views(vs, days@) && r@ == year_digest(vs),
{
    let views = day_views(days);
    digest_views(&views)
}


proof fn lemma_middle_differs(p: Seq<char>, x: Seq<char>, y: Seq<char>, s: Seq<char>)
    requires
        x != y,
    ensures
        p + x + s != p + y + s,
{
    if x.len() == y.len() {
        if !(exists|i: int| 0 <= i < x.len() && x[i] != y[i]) {
            assert(x =~= y);
        }
        let i = choose|i: int| 0 <= i < x.len() && x[i] != y[i];
        assert((p + x + s)[p.len() + i] == x[i]);
        assert((p + y + s)[p.len() + i] == y[i]);
    } else {
        assert((p + x + s).len() != (p + y + s).len());
    }
}

proof fn lemma_plain_quotes_differ(a: Seq<char>, b: Seq<char>)
    requires
        plain_text(a),
        plain_text(b),
        a != b,
    ensures
        json_text(a) != json_text(b),
{
    lemma_middle_differs(seq!['"'], a, b, seq!['"']);
}

proof fn lemma_fields_differ(keys: Seq<Seq<char>>, v1: Seq<Seq<char>>, v2: Seq<Seq<char>>, f: int)
    requires
        keys.len() == v1.len() == v2.len(),
        0 <= f < keys.len(),
        forall|j: int| 0 <= j < keys.len() && j != f ==> v1[j] == v2[j],
        json_text(v1[f]) != json_text(v2[f]),
    ensures
        fields_json(keys, v1) != fields_json(keys, v2),
    decreases f,
{
    if f == 0 {
        assert(v1.drop_first() =~= v2.drop_first());
        lemma_middle_differs(
            keys[0],
            json_text(v1[0]),
            json_text(v2[0]),
            fields_json(keys.drop_first(), v1.drop_first()),
        );
    } else {
        lemma_fields_differ(keys.drop_first(), v1.drop_first(), v2.drop_first(), f - 1);
        let p = keys[0] + json_text(v1[0]);
        lemma_middle_differs(
            p,
            fields_json(keys.drop_first(), v1.drop_first()),
            fields_json(keys.drop_first(), v2.drop_first()),
            Seq::empty(),
        );
        assert(p + fields_json(keys.drop_first(), v1.drop_first()) + Seq::<char>::empty()
            =~= fields_json(keys, v1));
        assert(p + fields_json(keys.drop_first(), v2.drop_first()) + Seq::<char>::empty()
            =~= fields_json(keys, v2));
    }
}

proof fn lemma_joined_differs(vs1: Seq<DayOutputDto>, vs2: Seq<DayOutputDto>, k: int)
    requires
        vs1.len() == vs2.len(),
        0 <= k < vs1.len(),
        forall|i: int| 0 <= i < vs1.len() && i != k ==> vs1[i] == vs2[i],
        day_json(vs1[k]) != day_json(vs2[k]),
    ensures
        joined_json(vs1) != joined_json(vs2),
    decreases vs1.len(),
{
    let n = vs1.len();
    if n == 1 {
    } else if k == n - 1 {
        assert(vs1.drop_last() =~= vs2.drop_last());
        lemma_middle_differs(
            joined_json(vs1.drop_last()) + ","@,
            day_json(vs1.last()),
            day_json(vs2.last()),
            Seq::empty(),
        );
        assert(joined_json(vs1.drop_last()) + ","@ + day_json(vs1.last()) + Seq::<char>::empty()
            =~= joined_json(vs1));
        assert(joined_json(vs2.drop_last()) + ","@ + day_json(vs2.last()) + Seq::<char>::empty()
            =~= joined_json(vs2));
    } else {
        lemma_joined_differs(vs1.drop_last(), vs2.drop_last(), k);
        assert(vs1.last() == vs2.last());
        lemma_middle_differs(
            Seq::empty(),
            joined_json(vs1.drop_last()),
            joined_json(vs2.drop_last()),
            ","@ + day_json(vs1.last()),
        );
        assert(Seq::<char>::empty() + joined_json(vs1.drop_last()) + (","@ + day_json(vs1.last()))
            =~= joined_json(vs1));
        assert(Seq::<char>::empty() + joined_json(vs2.drop_last()) + (","@ + day_json(vs2.last()))
            =~= joined_json(vs2));
    }
}

/// Changing one prayer time of one day of a year view, from one plain text
/// (no quote, backslash or control character) to another, changes the text
/// whose SHA-1 is the digest.
pub proof fn lemma_prayer_time_change_changes_digest_input(
    vs1: Seq<DayOutputDto>,
    vs2: Seq<DayOutputDto>,
    k: int,
    f: int,
)
    requires
        vs1.len() == vs2.len(),
        0 <= k < vs1.len(),
        0 <= f < 6,
        forall|i: int| 0 <= i < vs1.len() && i != k ==> vs1[i] == vs2[i],
        vs1[k].id == vs2[k].id,
        vs1[k].gregorian@ == vs2[k].gregorian@,
        vs1[k].hijri@ == vs2[k].hijri@,
        vs1[k].week_id == vs2[k].week_id,
        vs1[k].event == vs2[k].event,
        forall|j: int|
            0 <= j < 6 && j != f ==> prayer_values(vs1[k].prayer_times)[j] == prayer_values(
                vs2[k].prayer_times,
            )[j],
        prayer_values(vs1[k].prayer_times)[f] != prayer_values(vs2[k].prayer_times)[f],
        plain_text(prayer_values(vs1[k].prayer_times)[f]),
        plain_text(prayer_values(vs2[k].prayer_times)[f]),
    ensures
        days_json(vs1) != days_json(vs2),
{
    let v1 = vs1[k];
    let v2 = vs2[k];
    let pv1 = prayer_values(v1.prayer_times);
    let pv2 = prayer_values(v2.prayer_times);
    lemma_plain_quotes_differ(pv1[f], pv2[f]);
    lemma_fields_differ(prayer_keys(), pv1, pv2, f);
    lemma_middle_differs(
        "{"@,
        fields_json(prayer_keys(), pv1),
        fields_json(prayer_keys(), pv2),
        "}"@,
    );
    let head = "{\"id\":"@ + decimal(v1.id as nat) + ",\"gregorian\":"@ + json_text(v1.gregorian@)
        + ",\"hijri\":"@ + json_text(v1.hijri@) + ",\"prayerTimes\":"@;
    let tail = week_json(v1.week_id) + event_json(v1.event) + "}"@;
    lemma_middle_differs(head, prayer_json(v1.prayer_times), prayer_json(v2.prayer_times), tail);
    assert(day_json(v1) =~= head + prayer_json(v1.prayer_times) + tail);
    assert(day_json(v2) =~= head + prayer_json(v2.prayer_times) + tail);
    lemma_joined_differs(vs1, vs2, k);
    lemma_middle_differs("["@, joined_json(vs1), joined_json(vs2), "]"@);
}

proof fn lemma_same_day_same_json(v1: DayOutputDto, v2: DayOutputDto, d: DailyPrayerTime)
    requires
        is_day_view(v1, d),
        is_day_view(v2, d),
    ensures
        day_json(v1) == day_json(v2),
{
    assert(prayer_values(v1.prayer_times) =~= prayer_values(v2.prayer_times));
    assert(v1.event == v2.event);
}

proof fn lemma_joined_same(vs1: Seq<DayOutputDto>, vs2: Seq<DayOutputDto>)
    requires
        vs1.len() == vs2.len(),
        forall|i: int| 0 <= i < vs1.len() ==> day_json(vs1[i]) == day_json(vs2[i]),
    ensures
        joined_json(vs1) == joined_json(vs2),
    decreases vs1.len(),
{
    if vs1.len() > 1 {
        lemma_joined_same(vs1.drop_last(), vs2.drop_last());
        assert(day_json(vs1.last()) == day_json(vs2.last()));
    }
}

/// The digest depends on the days alone: two year views of the same days,
/// however they were built, give the same text and so the same digest.
pub proof fn lemma_digest_depends_on_days_only(
    vs1: Seq<DayOutputDto>,
    vs2: Seq<DayOutputDto>,
    days: Seq<DailyPrayerTime>,
)
    requires
        are_day_views(vs1, days),
        are_day_views(vs2, days),
    ensures
        days_json(vs1) == days_json(vs2),
        year_digest(vs1) == year_digest(vs2),
{
    assert forall|i: int| 0 <= i < vs1.len() implies day_json(vs1[i]) == day_json(vs2[i]) by {
        lemma_same_day_same_json(vs1[i], vs2[i], days[i]);
    }
    lemma_joined_same(vs1, vs2);
}

} // verus!
