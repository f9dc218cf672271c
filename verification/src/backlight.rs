//! The touchscreen's backlight: which device it is, and what is written to it.

use vstd::prelude::*;

use crate::text;
use crate::text::{dec, parse_u32, trim};

verus! {

/// A directory under `/sys/class/backlight`: whether it has the two files, and
/// what `max_brightness` says, if it could be read.
pub struct BacklightEntry {
    pub dir: String,
    pub has_brightness: bool,
    pub has_max: bool,
    pub max_text: Option<String>,
}

/// The backlight: where its brightness is set, its full brightness, and whether
/// a failure was reported already.
pub struct Backlight {
    brightness_path: String,
    max_brightness: u32,
    warned: bool,
}

/// What is known of the backlight.
pub struct BacklightView {
    pub path: Seq<char>,
    pub max: u32,
    pub warned: bool,
}

impl View for Backlight {
    type V = BacklightView;

    closed spec fn view(&self) -> BacklightView {
        BacklightView {
            path: self.brightness_path@,
            max: self.max_brightness,
            warned: self.warned,
        }
    }
}

/// A text to write to a file.
pub struct SysfsWrite {
    pub path: String,
    pub value: String,
}

/// Whether an entry is a backlight that can be set.
pub open spec fn usable(e: BacklightEntry) -> bool {
    e.has_brightness && e.has_max
}

/// The full brightness of an entry, if it could be read and is a number.
pub open spec fn full_brightness(e: BacklightEntry) -> Option<u32> {
    match e.max_text {
        Some(t) => text::parsed_u32(text::trimmed(t@)),
        None => None,
    }
}

/// The backlight among some entries: the first that has both files, unless its
/// full brightness is not known. Later entries are not considered.
pub open spec fn detected(entries: Seq<BacklightEntry>) -> Option<BacklightView>
    decreases entries.len(),
{
    if entries.len() == 0 {
        None
    } else if usable(entries[0]) {
        match full_brightness(entries[0]) {
            Some(max) => Some(
                BacklightView { path: entries[0].dir@ + "/brightness"@, max, warned: false },
            ),
            None => None,
        }
    } else {
        detected(entries.drop_first())
    }
}

impl Backlight {
    /// Finds the backlight among the entries, in the order in which they come.
    pub fn detect(entries: &Vec<BacklightEntry>) -> (r: Option<Self>)
        ensures
            r is Some <==> detected(entries@) is Some,
            r matches Some(b) ==> b@ == detected(entries@)->0,
    {
        assert(entries@.skip(0) =~= entries@);
        for i in 0..entries.len()
            invariant
                detected(entries@) == detected(entries@.skip(i as int)),
        {
            let entry = &entries[i];
            assert(entries@.skip(i as int)[0] == *entry);
            assert(entries@.skip(i as int).drop_first() =~= entries@.skip(i + 1));
            if entry.has_brightness && entry.has_max {
                let max_text = match &entry.max_text {
                    Some(t) => trim(t.as_str()),
                    None => {
                        return None;
                    },
                };
                return match parse_u32(max_text.as_str()) {
                    Some(max) => {
                        let mut path = entry.dir.as_str().to_owned();
                        path.append("/brightness");
                        Some(
                            Backlight { brightness_path: path, max_brightness: max, warned: false },
                        )
                    },
                    None => None,
                };
            }
        }
        None
    }

    /// Switches the light off entirely.
    pub fn off(&self) -> (r: SysfsWrite)
        ensures
            r.path@ == self@.path,
            r.value@ == "0"@,
    {
        self.write("0")
    }

    /// Switches the light to full brightness.
    pub fn on(&self) -> (r: SysfsWrite)
        ensures
            r.path@ == self@.path,
            r.value@ == text::decimal(self@.max as nat),
    {
        let value = dec(self.max_brightness as u128);
        self.write(value.as_str())
    }

    /// Follows the screen into sleep and out of it.
    pub fn sleeping_changed(&self, sleeping: bool) -> (r: SysfsWrite)
        ensures
            r.path@ == self@.path,
            r.value@ == (if sleeping {
                "0"@
            } else {
                text::decimal(self@.max as nat)
            }),
    {
        if sleeping {
            self.off()
        } else {
            self.on()
        }
    }

    fn write(&self, value: &str) -> (r: SysfsWrite)
        ensures
            r.path@ == self@.path,
            r.value@ == value@,
    {
        SysfsWrite { path: self.brightness_path.as_str().to_owned(), value: value.to_owned() }
    }

    /// Notes that a write failed, and says whether to report it: only the first
    /// time.
    pub fn write_failed(&mut self) -> (r: bool)
        ensures
            r == !old(self)@.warned,
            final(self)@ == (BacklightView { warned: true, ..old(self)@ }),
    {
        let first = !self.warned;
        self.warned = true;
        first
    }
}

/// What is written to switch the light on reads as the full brightness, and
/// what is written to switch it off reads as none.
pub proof fn written_brightness_reads_back(max: u32)
    ensures
        text::parsed_u32(text::trimmed(text::decimal(max as nat))) == Some(max),
        text::parsed_u32(text::trimmed("0"@)) == Some(0u32),
{
    text::decimal_is_trimmed(max as nat);
    text::parse_reads_back(max);
    reveal_strlit("0");
    assert("0"@ =~= text::decimal(0));
    text::decimal_is_trimmed(0);
    text::parse_reads_back(0);
}

proof fn lemma_detected_from(entries: Seq<BacklightEntry>, k: int)
    requires
        0 <= k <= entries.len(),
        forall|i: int| 0 <= i < k ==> !usable(#[trigger] entries[i]),
    ensures
        detected(entries) == detected(entries.skip(k)),
    decreases k,
{
    if k == 0 {
        assert(entries.skip(0) =~= entries);
    } else {
        let tail = entries.drop_first();
        assert(!usable(entries[0]));
        assert forall|i: int| 0 <= i < k - 1 implies !usable(#[trigger] tail[i]) by {
            assert(tail[i] == entries[i + 1]);
        }
        lemma_detected_from(tail, k - 1);
        assert(tail.skip(k - 1) =~= entries.skip(k));
    }
}

/// Entries that lack one of the two files are passed over; the first that has
/// both decides.
pub proof fn first_usable_entry_decides(entries: Seq<BacklightEntry>, k: int)
    requires
        0 <= k <= entries.len(),
        forall|i: int| 0 <= i < k ==> !usable(#[trigger] entries[i]),
    ensures
        k == entries.len() ==> detected(entries) is None,
        k < entries.len() && usable(entries[k]) ==> {
            &&& detected(entries) is Some <==> full_brightness(entries[k]) is Some
            &&& detected(entries) matches Some(b) ==> b.path == entries[k].dir@ + "/brightness"@
                && Some(b.max) == full_brightness(entries[k])
        },
{
    lemma_detected_from(entries, k);
    if k < entries.len() {
        assert(entries.skip(k)[0] == entries[k]);
    }
}

/// What is written for the screen's sleep goes to the backlight's own file, and
/// reads as no brightness for sleep and as full brightness otherwise.
pub proof fn sleep_is_dark_and_waking_is_bright(
    b: Backlight,
    sleeping: bool,
    w: SysfsWrite,
    off: SysfsWrite,
    on: SysfsWrite,
)
    requires
        call_ensures(Backlight::sleeping_changed, (&b, sleeping), w),
        call_ensures(Backlight::off, (&b,), off),
        call_ensures(Backlight::on, (&b,), on),
    ensures
        off.path@ == b@.path,
        text::parsed_u32(off.value@) == Some(0u32),
        on.path@ == b@.path,
        text::parsed_u32(on.value@) == Some(b@.max),
        w.path@ == b@.path,
        text::parsed_u32(w.value@) == Some(
            if sleeping {
                0u32
            } else {
                b@.max
            },
        ),
{
    reveal_strlit("0");
    assert("0"@ =~= text::decimal(0));
    text::parse_reads_back(0);
    text::parse_reads_back(b@.max);
}

/// The full brightness is read from the file as the system writes it: the number
/// and a line end.
pub proof fn full_brightness_reads_back(e: BacklightEntry, max: u32)
    requires
        e.max_text matches Some(t) && t@ == text::decimal(max as nat).push('\n'),
    ensures
        full_brightness(e) == Some(max),
{
    let d = text::decimal(max as nat);
    let t = d.push('\n');
    text::decimal_reads_back(max as nat);
    text::parse_reads_back(max);
    assert('0' <= d[0] <= '9');
    assert(t[0] == d[0]);
    assert(t.skip(0) =~= t);
    assert(t.drop_last() =~= d);
    assert('0' <= d.last() <= '9');
    assert(text::trimmed_end(d) == d);
    assert(text::trimmed_end(t) == d);
    assert(text::trimmed(t) == d);
}

/// A write that failed is reported the first time only, and nothing else of the
/// backlight changes.
pub proof fn failures_are_reported_once(call: (&mut Backlight,), r: bool)
    requires
        call_ensures(Backlight::write_failed, call, r),
    ensures
        r <==> !old(call.0)@.warned,
        final(call.0)@.warned,
        final(call.0)@.path == old(call.0)@.path,
        final(call.0)@.max == old(call.0)@.max,
{
}

} // verus!
