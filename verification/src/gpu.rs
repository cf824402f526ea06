//! Host GPU memory. No LLM backend reports free or total VRAM, so the broker
//! asks the GPU itself: `nvidia-smi`, summed over all GPUs, or else the AMD
//! card with the most VRAM as the kernel lists it. `None` when neither answers.
use crate::text::{chars_of, parse_u64, split_at_first, split_lines, trimmed};
use vstd::prelude::*;

verus! {

/// Bytes in a mebibyte, the unit of `nvidia-smi`.
pub const MIB: u64 = 1048576;

#[derive(Debug, Clone, Copy, PartialEq, Eq, Structural)]
pub struct Vram {
    pub total_bytes: u64,
    pub used_bytes: u64,
}

/// Where to read VRAM from.
#[derive(Debug, Clone, Copy, PartialEq, Eq, Structural)]
pub enum VramSource {
    /// `nvidia-smi`, or else the AMD cards.
    Auto,
    Nvidia,
    Amd,
    /// Report no VRAM.
    Off,
}

/// Reads the host's VRAM. A trait so that it can be faked.
pub trait GpuProbe: Send + Sync {
    fn vram(&self) -> Option<Vram>;
}

/// What the kernel lists for one entry of its DRM directory: the text of its
/// two VRAM files, as far as they can be read.
#[derive(Debug)]
pub struct DrmEntry {
    pub name: String,
    pub vram_total: Option<String>,
    pub vram_used: Option<String>,
}

/// What a probe has found out so far.
#[derive(Debug)]
pub enum ProbeEvent {
    Start,
    /// What `nvidia-smi` printed; `None` if it could not be run or failed.
    NvidiaSmi(Option<String>),
    /// The entries of the DRM directory; `None` if it could not be read.
    Drm(Option<Vec<DrmEntry>>),
}

/// What a probe needs next.
#[derive(Debug, Clone, Copy, PartialEq, Eq, Structural)]
pub enum ProbeStep {
    /// Nothing: this is the reading.
    Done(Option<Vram>),
    RunNvidiaSmi,
    ReadDrm,
    /// The GPUs report more memory than a `u64` of bytes can hold.
    Overflow,
}

/// The GPUs report more memory than a `u64` of bytes can hold.
#[derive(Debug, Clone, Copy, PartialEq, Eq, Structural)]
pub struct VramOverflow;

/// Reads the VRAM of the machine it runs on.
#[derive(Debug)]
pub struct SystemGpuProbe {
    source: VramSource,
    drm_root: String,
}

// ---------------------------------------------------------------------------
// `nvidia-smi`
// ---------------------------------------------------------------------------

/// What the lines of `nvidia-smi` come to. The first line that is no reading,
/// or that makes the sum too large, decides.
pub ghost enum SmiView {
    Malformed,
    Overflow,
    Sum { gpus: nat, total: nat, used: nat },
}

impl SmiView {
    /// With the line of one more GPU: total and used mebibytes, separated by
    /// a comma.
    pub open spec fn with_line(self, line: Seq<char>) -> SmiView {
        if let SmiView::Sum { gpus, total, used } = self {
            if !line.contains(',') {
                SmiView::Malformed
            } else {
                let at = choose|i: int| crate::text::first_at(line, ',', i);
                let first = crate::text::decimal_u64(crate::text::trim(line.take(at)));
                let second = crate::text::decimal_u64(crate::text::trim(line.skip(at + 1)));
                if first is None {
                    SmiView::Malformed
                } else if first->0 * MIB > u64::MAX {
                    SmiView::Overflow
                } else if second is None {
                    SmiView::Malformed
                } else if second->0 * MIB > u64::MAX || total + first->0 * MIB > u64::MAX || used
                    + second->0 * MIB > u64::MAX {
                    SmiView::Overflow
                } else {
                    SmiView::Sum {
                        gpus: gpus + 1,
                        total: (total + first->0 * MIB) as nat,
                        used: (used + second->0 * MIB) as nat,
                    }
                }
            }
        } else {
            self
        }
    }

    /// The reading, if there was a GPU and every line made sense.
    pub open spec fn vram(self) -> Option<Vram> {
        match self {
            SmiView::Sum { gpus, total, used } => if gpus > 0 {
                Some(Vram { total_bytes: total as u64, used_bytes: used as u64 })
            } else {
                None
            },
            _ => None,
        }
    }
}

/// What these lines come to. Blank lines do not count.
pub open spec fn smi_lines(lines: Seq<Seq<char>>) -> SmiView
    decreases lines.len(),
{
    if lines.len() == 0 {
        SmiView::Sum { gpus: 0, total: 0, used: 0 }
    } else {
        let earlier = smi_lines(lines.drop_last());
        if crate::text::trim(lines.last()).len() == 0 {
            earlier
        } else {
            earlier.with_line(lines.last())
        }
    }
}

/// What the output of `nvidia-smi` comes to.
pub open spec fn smi(out: Seq<char>) -> SmiView {
    smi_lines(crate::text::lines(out))
}

/// The sum over all GPUs, `None` if a line makes no sense or there is no GPU,
/// and an error if the sum does not fit.
pub fn sum_nvidia_smi(out: &str) -> (r: Result<Option<Vram>, VramOverflow>)
    ensures
        match r {
            Ok(vram) => !(smi(out@) is Overflow) && vram == smi(out@).vram(),
            Err(_) => smi(out@) is Overflow,
        },
{
    let lines = split_lines(&chars_of(out));
    let ghost all = crate::text::pieces(lines@);
    let mut sum: Option<Vram> = None;
    let mut gpus: Ghost<nat> = Ghost(0);
    let mut i: usize = 0;
    while i < lines.len()
        invariant
            i <= lines@.len(),
            all == crate::text::pieces(lines@),
            all == crate::text::lines(out@),
            smi_lines(all.take(i as int)) == (SmiView::Sum {
                gpus: gpus@,
                total: (if sum is Some { sum->0.total_bytes as nat } else { 0 }),
                used: (if sum is Some { sum->0.used_bytes as nat } else { 0 }),
            }),
            sum is Some <==> gpus@ > 0,
        decreases lines@.len() - i,
    {
        let line = &lines[i];
        proof {
            assert(all.take(i + 1).drop_last() =~= all.take(i as int));
            assert(all.take(i + 1).last() == line@);
        }
        if trimmed(line).len() > 0 {
            proof {
                lemma_smi_stays(all, i + 1);
            }
            match split_at_first(line, ',') {
                Some((before, after)) => {
                    assert(crate::text::first_at(line@, ',', before@.len() as int));
                    assert(line@.contains(','));
                    let total: u64 = match parse_u64(&trimmed(&before)) {
                        Some(n) => match n.checked_mul(MIB) {
                            Some(bytes) => bytes,
                            None => {
                                return Err(VramOverflow);
                            },
                        },
                        None => {
                            return Ok(None);
                        },
                    };
                    let used: u64 = match parse_u64(&trimmed(&after)) {
                        Some(n) => match n.checked_mul(MIB) {
                            Some(bytes) => bytes,
                            None => {
                                return Err(VramOverflow);
                            },
                        },
                        None => {
                            return Ok(None);
                        },
                    };
                    let so_far = match sum {
                        Some(vram) => vram,
                        None => Vram { total_bytes: 0, used_bytes: 0 },
                    };
                    match (
                        so_far.total_bytes.checked_add(total),
                        so_far.used_bytes.checked_add(used),
                    ) {
                        (Some(total_bytes), Some(used_bytes)) => {
                            sum = Some(Vram { total_bytes, used_bytes });
                            proof {
                                gpus@ = gpus@ + 1;
                            }
                        },
                        _ => {
                            return Err(VramOverflow);
                        },
                    }
                },
                None => {
                    return Ok(None);
                },
            }
        }
        i = i + 1;
    }
    assert(all.take(all.len() as int) =~= all);
    Ok(sum)
}

/// Once the lines are malformed or too large, they stay so.
proof fn lemma_smi_stays(lines: Seq<Seq<char>>, n: int)
    requires
        0 <= n <= lines.len(),
    ensures
        !(smi_lines(lines.take(n)) is Sum) ==> smi_lines(lines) == smi_lines(lines.take(n)),
    decreases lines.len() - n,
{
    if n == lines.len() {
        assert(lines.take(n) =~= lines);
    } else {
        lemma_smi_stays(lines.drop_last(), n);
        assert(lines.drop_last().take(n) =~= lines.take(n));
    }
}

/// One `"<total MiB>, <used MiB>"` line for each GPU, summed.
pub fn parse_nvidia_smi(out: &str) -> (r: Option<Vram>)
    requires
        !(smi(out@) is Overflow),
    ensures
        r == smi(out@).vram(),
{
    match sum_nvidia_smi(out) {
        Ok(vram) => vram,
        Err(_) => None,
    }
}

// ---------------------------------------------------------------------------
// AMD cards
// ---------------------------------------------------------------------------

/// A card, and not one of its connectors.
pub open spec fn is_card_name(name: Seq<char>) -> bool {
    "card"@.is_prefix_of(name) && !name.contains('-')
}

/// The number in a file of the kernel, if it could be read and holds one.
pub open spec fn file_number(text: Option<String>) -> Option<u64> {
    match text {
        Some(t) => crate::text::decimal_u64(crate::text::trim(t@)),
        None => None,
    }
}

impl DrmEntry {
    /// The VRAM of a card. Other entries have none, nor has a card without
    /// both numbers.
    pub open spec fn reading(self) -> Option<Vram> {
        match (file_number(self.vram_total), file_number(self.vram_used)) {
            (Some(total_bytes), Some(used_bytes)) => if is_card_name(self.name@) {
                Some(Vram { total_bytes, used_bytes })
            } else {
                None
            },
            _ => None,
        }
    }

    /// The VRAM of a card.
    fn read(&self) -> (r: Option<Vram>)
        ensures
            r == self.reading(),
    {
        if !is_card(self.name.as_str()) {
            return None;
        }
        match (read_u64(&self.vram_total), read_u64(&self.vram_used)) {
            (Some(total_bytes), Some(used_bytes)) => Some(Vram { total_bytes, used_bytes }),
            _ => None,
        }
    }
}

/// `vram` is the reading of entry `k`, which has the most VRAM of all, and of
/// those that have the most stands last.
pub open spec fn is_largest(entries: Seq<DrmEntry>, k: int, vram: Vram) -> bool {
    &&& 0 <= k < entries.len()
    &&& entries[k].reading() == Some(vram)
    &&& forall|j: int|
        0 <= j < entries.len() ==> ((#[trigger] entries[j]).reading() matches Some(other)
            ==> other.total_bytes < vram.total_bytes || other.total_bytes == vram.total_bytes && j
            <= k)
}

/// Whether a DRM entry of this name is a card, and not one of its connectors.
pub fn is_card(name: &str) -> (r: bool)
    ensures
        r == is_card_name(name@),
{
    let chars = chars_of(name);
    let prefix = chars_of("card");
    if chars.len() < prefix.len() {
        return false;
    }
    let mut i: usize = 0;
    while i < prefix.len()
        invariant
            i <= prefix@.len() <= chars@.len(),
            forall|j: int| 0 <= j < i ==> chars@[j] == prefix@[j],
            prefix@ == "card"@,
            chars@ == name@,
        decreases prefix@.len() - i,
    {
        if chars[i] != prefix[i] {
            assert("card"@[i as int] != name@[i as int]);
            return false;
        }
        i = i + 1;
    }
    assert("card"@.is_prefix_of(name@));
    match split_at_first(&chars, '-') {
        Some((before, _)) => {
            assert(name@[before@.len() as int] == '-');
            false
        },
        None => true,
    }
}

/// The number in a file of the kernel, if it could be read and holds one.
fn read_u64(text: &Option<String>) -> (r: Option<u64>)
    ensures
        r == file_number(*text),
{
    match text {
        Some(t) => parse_u64(&trimmed(&chars_of(t.as_str()))),
        None => None,
    }
}

/// The card with the most VRAM: a discrete GPU beside an integrated one.
pub fn amd(entries: &Vec<DrmEntry>) -> (r: Option<Vram>)
    ensures
        match r {
            Some(vram) => exists|k: int| is_largest(entries@, k, vram),
            None => forall|j: int|
                0 <= j < entries@.len() ==> (#[trigger] entries@[j]).reading() is None,
        },
{
    let mut best: Option<Vram> = None;
    let mut at: Ghost<int> = Ghost(0);
    let mut i: usize = 0;
    while i < entries.len()
        invariant
            i <= entries@.len(),
            match best {
                Some(vram) => is_largest(entries@.take(i as int), at@, vram),
                None => forall|j: int|
                    0 <= j < i ==> (#[trigger] entries@[j]).reading() is None,
            },
        decreases entries@.len() - i,
    {
        if let Some(vram) = entries[i].read() {
            let larger = match best {
                Some(so_far) => so_far.total_bytes <= vram.total_bytes,
                None => true,
            };
            if larger {
                best = Some(vram);
                proof {
                    at@ = i as int;
                }
            }
        }
        i = i + 1;
        proof {
            let now = entries@.take(i as int);
            let before = entries@.take(i - 1);
            if let Some(vram) = best {
                assert(now[at@] == entries@[at@]);
                assert forall|j: int| 0 <= j < now.len() implies ((
                #[trigger] now[j]).reading() matches Some(other) ==> other.total_bytes
                    < vram.total_bytes || other.total_bytes == vram.total_bytes && j
                    <= at@) by {
                    assert(now[j] == entries@[j]);
                    if j < i - 1 {
                        assert(before[j] == entries@[j]);
                    }
                }
            }
        }
    }
    assert(entries@.take(entries@.len() as int) =~= entries@);
    best
}

// ---------------------------------------------------------------------------
// The probe
// ---------------------------------------------------------------------------

impl SystemGpuProbe {
    pub closed spec fn source(&self) -> VramSource {
        self.source
    }

    pub closed spec fn root(&self) -> Seq<char> {
        self.drm_root@
    }

    pub fn new(source: VramSource) -> (r: Self)
        ensures
            r.source() == source,
            r.root() == "/sys/class/drm"@,
    {
        SystemGpuProbe { source, drm_root: String::from_str("/sys/class/drm") }
    }

    /// The directory in which the kernel lists the cards.
    pub fn drm_root(&self) -> (r: &String)
        ensures
            r@ == self.root(),
    {
        &self.drm_root
    }

    /// Goes on with what was found out so far. AMD cards are asked for only
    /// when the source names them, or when it names none in particular and
    /// `nvidia-smi` gave no reading.
    pub fn vram(&self, event: ProbeEvent) -> (r: ProbeStep)
        ensures
            match event {
                ProbeEvent::Start => r == match self.source() {
                    VramSource::Off => ProbeStep::Done(None),
                    VramSource::Nvidia => ProbeStep::RunNvidiaSmi,
                    VramSource::Auto => ProbeStep::RunNvidiaSmi,
                    VramSource::Amd => ProbeStep::ReadDrm,
                },
                ProbeEvent::NvidiaSmi(out) => {
                    let sum = match out {
                        Some(text) => smi(text@),
                        None => SmiView::Malformed,
                    };
                    r == if sum is Overflow {
                        ProbeStep::Overflow
                    } else if sum.vram() is None && self.source() == VramSource::Auto {
                        ProbeStep::ReadDrm
                    } else {
                        ProbeStep::Done(sum.vram())
                    }
                },
                ProbeEvent::Drm(Some(entries)) => match r {
                    ProbeStep::Done(Some(vram)) => exists|k: int|
                        is_largest(entries@, k, vram),
                    ProbeStep::Done(None) => forall|j: int|
                        0 <= j < entries@.len() ==> (#[trigger] entries@[j]).reading() is None,
                    _ => false,
                },
                ProbeEvent::Drm(None) => r == ProbeStep::Done(None),
            },
    {
        match event {
            ProbeEvent::Start => match self.source {
                VramSource::Off => ProbeStep::Done(None),
                VramSource::Nvidia => ProbeStep::RunNvidiaSmi,
                VramSource::Auto => ProbeStep::RunNvidiaSmi,
                VramSource::Amd => ProbeStep::ReadDrm,
            },
            ProbeEvent::NvidiaSmi(out) => {
                let sum = match &out {
                    Some(text) => sum_nvidia_smi(text.as_str()),
                    None => Ok(None),
                };
                match sum {
                    Ok(Some(vram)) => ProbeStep::Done(Some(vram)),
                    Ok(None) => match self.source {
                        VramSource::Auto => ProbeStep::ReadDrm,
                        _ => ProbeStep::Done(None),
                    },
                    Err(_) => ProbeStep::Overflow,
                }
            },
            ProbeEvent::Drm(entries) => match &entries {
                Some(list) => ProbeStep::Done(amd(list)),
                None => ProbeStep::Done(None),
            },
        }
    }
}

/// The cards have at most one largest reading: which card is reported depends
/// on nothing but what the kernel lists.
pub proof fn law_the_largest_card_is_determined(
    entries: Seq<DrmEntry>,
    k: int,
    a: Vram,
    l: int,
    b: Vram,
)
    requires
        is_largest(entries, k, a),
        is_largest(entries, l, b),
    ensures
        k == l,
        a == b,
{
    assert(entries[l].reading() == Some(b));
    assert(entries[k].reading() == Some(a));
}

/// Connector entries are never taken for cards.
pub proof fn law_a_connector_is_no_card(entry: DrmEntry)
    requires
        entry.name@.contains('-'),
    ensures
        entry.reading() is None,
{
}

/// The output of `nvidia-smi` is a sum: one more line of a GPU adds exactly
/// its own memory.
pub proof fn law_every_gpu_is_counted(
    lines: Seq<Seq<char>>,
    line: Seq<char>,
    at: int,
    total: u64,
    used: u64,
)
    requires
        crate::text::first_at(line, ',', at),
        crate::text::decimal_u64(crate::text::trim(line.take(at))) == Some(total),
        crate::text::decimal_u64(crate::text::trim(line.skip(at + 1))) == Some(used),
        smi_lines(lines) is Sum,
        smi_lines(lines)->total + total * MIB <= u64::MAX,
        smi_lines(lines)->used + used * MIB <= u64::MAX,
    ensures
        smi_lines(lines.push(line)) == (SmiView::Sum {
            gpus: smi_lines(lines)->gpus + 1,
            total: (smi_lines(lines)->total + total * MIB) as nat,
            used: (smi_lines(lines)->used + used * MIB) as nat,
        }),
{
    assert(lines.push(line).drop_last() =~= lines);
    assert(line[at] == ',');
    crate::text::lemma_trim_keeps(line, at);
    let chosen = choose|i: int| crate::text::first_at(line, ',', i);
    assert(crate::text::first_at(line, ',', chosen));
    assert(chosen == at);
}

/// Lines that say nothing change nothing, and output without any other line is
/// no reading.
pub proof fn law_blank_lines_do_not_count(lines: Seq<Seq<char>>, blank: Seq<char>)
    requires
        forall|i: int|
            0 <= i < blank.len() ==> crate::text::is_white_space(#[trigger] blank[i]),
    ensures
        smi_lines(lines.push(blank)) == smi_lines(lines),
        smi_lines(Seq::empty()).vram() is None,
{
    assert(lines.push(blank).drop_last() =~= lines);
    crate::text::law_trimming_takes_only_white_space(blank);
    let trimmed = crate::text::trim(blank);
    if trimmed.len() > 0 {
        let (from, to) = choose|from: int, to: int|
            {
                &&& 0 <= from <= to <= blank.len()
                &&& trimmed == #[trigger] blank.subrange(from, to)
                &&& forall|i: int|
                    0 <= i < blank.len() && (i < from || i >= to) ==> crate::text::is_white_space(
                        #[trigger] blank[i],
                    )
            };
        assert(trimmed.first() == blank[from]);
    }
}

/// A line that is no reading spoils all of it, whatever comes behind; so does
/// a sum that does not fit.
pub proof fn law_a_spoiled_reading_stays_spoiled(
    lines: Seq<Seq<char>>,
    more: Seq<Seq<char>>,
)
    requires
        !(smi_lines(lines) is Sum),
    ensures
        smi_lines(lines + more) == smi_lines(lines),
        smi_lines(lines).vram() is None,
{
    assert((lines + more).take(lines.len() as int) =~= lines);
    lemma_smi_stays(lines + more, lines.len() as int);
}

/// When a line is no reading: it lacks a comma, or what stands before the first
/// comma or behind it is no number. What stands before it decides first.
pub proof fn law_what_is_no_reading(lines: Seq<Seq<char>>, line: Seq<char>, at: int)
    requires
        crate::text::trim(line).len() > 0,
        smi_lines(lines) is Sum,
    ensures
        !line.contains(',') ==> smi_lines(lines.push(line)) is Malformed,
        crate::text::first_at(line, ',', at) && crate::text::decimal_u64(
            crate::text::trim(line.take(at)),
        ) is None ==> smi_lines(lines.push(line)) is Malformed,
        crate::text::first_at(line, ',', at) && crate::text::decimal_u64(
            crate::text::trim(line.take(at)),
        ) is Some && crate::text::decimal_u64(crate::text::trim(line.take(at)))->0 * 1048576
            <= u64::MAX && crate::text::decimal_u64(crate::text::trim(line.skip(at + 1))) is None
            ==> smi_lines(lines.push(line)) is Malformed,
        crate::text::first_at(line, ',', at) && crate::text::decimal_u64(
            crate::text::trim(line.take(at)),
        ) is Some && crate::text::decimal_u64(crate::text::trim(line.take(at)))->0 * 1048576
            > u64::MAX ==> smi_lines(lines.push(line)) is Overflow,
{
    assert(lines.push(line).drop_last() =~= lines);
    if crate::text::first_at(line, ',', at) {
        assert(line[at] == ',');
        let chosen = choose|i: int| crate::text::first_at(line, ',', i);
        assert(crate::text::first_at(line, ',', chosen));
        assert(chosen == at);
    }
}

/// What one more GPU adds, in bytes: its mebibytes times 1048576, to the total
/// what stands before the comma and to the used what stands behind it; and the
/// reading is the two sums. Where one of them does not fit, there is none.
pub proof fn law_what_a_gpu_adds(
    lines: Seq<Seq<char>>,
    line: Seq<char>,
    at: int,
    total: u64,
    used: u64,
)
    requires
        crate::text::first_at(line, ',', at),
        crate::text::decimal_u64(crate::text::trim(line.take(at))) == Some(total),
        crate::text::decimal_u64(crate::text::trim(line.skip(at + 1))) == Some(used),
        smi_lines(lines) is Sum,
    ensures
        ({
            let before = smi_lines(lines).vram();
            let t0: int = if before is Some {
                before->0.total_bytes as int
            } else {
                0
            };
            let u0: int = if before is Some {
                before->0.used_bytes as int
            } else {
                0
            };
            let after = smi_lines(lines.push(line));
            let fits = t0 + total * 1048576 <= u64::MAX && u0 + used * 1048576 <= u64::MAX;
            &&& fits ==> after is Sum && after.vram() is Some
            &&& fits ==> after.vram()->0.total_bytes as int == t0 + total * 1048576
            &&& fits ==> after.vram()->0.used_bytes as int == u0 + used * 1048576
            &&& !fits ==> after is Overflow && after.vram() is None
        }),
{
    law_sums_fit(lines);
    assert(lines.push(line).drop_last() =~= lines);
    assert(line[at] == ',');
    crate::text::lemma_trim_keeps(line, at);
    let chosen = choose|i: int| crate::text::first_at(line, ',', i);
    assert(crate::text::first_at(line, ',', chosen));
    assert(chosen == at);
}

/// The sums of lines always fit, and are zero as long as there is no GPU.
pub proof fn law_sums_fit(lines: Seq<Seq<char>>)
    ensures
        smi_lines(lines) matches SmiView::Sum { gpus, total, used } ==> {
            &&& total <= u64::MAX && used <= u64::MAX
            &&& gpus == 0 ==> total == 0 && used == 0
        },
    decreases lines.len(),
{
    if lines.len() > 0 {
        law_sums_fit(lines.drop_last());
    }
}

/// What is read of output, is read of its lines.
pub proof fn law_output_is_read_by_lines(out: Seq<char>)
    ensures
        smi(out) == smi_lines(crate::text::lines(out)),
        crate::text::joined(crate::text::lines(out)) == out,
{
    crate::text::law_lines_make_up_their_text(out);
}

/// What is read of a DRM entry: the numbers in its two files, each for what it
/// stands for, if it is named `card` and something without a hyphen; and
/// nothing if a file is missing or holds no number.
pub proof fn law_what_is_read_of_a_card(
    entry: DrmEntry,
    total: u64,
    used: u64,
)
    ensures
        ({
            let name = entry.name@;
            let is_card = name.len() >= 4 && name[0] == 'c' && name[1] == 'a' && name[2] == 'r'
                && name[3] == 'd' && !name.contains('-');
            &&& is_card && entry.vram_total is Some && entry.vram_used is Some
                && crate::text::decimal_u64(crate::text::trim(entry.vram_total->0@)) == Some(total)
                && crate::text::decimal_u64(crate::text::trim(entry.vram_used->0@)) == Some(used)
                ==> entry.reading() is Some && entry.reading()->0.total_bytes == total
                && entry.reading()->0.used_bytes == used
            &&& !is_card ==> entry.reading() is None
            &&& entry.vram_total is None || entry.vram_used is None ==> entry.reading() is None
            &&& entry.vram_total matches Some(text) ==> (crate::text::decimal_u64(
                crate::text::trim(text@),
            ) is None ==> entry.reading() is None)
            &&& entry.vram_used matches Some(text) ==> (crate::text::decimal_u64(
                crate::text::trim(text@),
            ) is None ==> entry.reading() is None)
        }),
{
    reveal_strlit("card");
    let name = entry.name@;
    assert("card"@.len() == 4);
    if "card"@.is_prefix_of(name) {
        assert(name[0] == "card"@[0] && name[1] == "card"@[1] && name[2] == "card"@[2] && name[3]
            == "card"@[3]);
    }
    if name.len() >= 4 && name[0] == 'c' && name[1] == 'a' && name[2] == 'r' && name[3] == 'd' {
        assert("card"@ =~= name.subrange(0, 4));
        assert("card"@.is_prefix_of(name));
    }
}

/// The card that is reported has at least as much VRAM as every other card.
pub proof fn law_no_card_has_more(entries: Seq<DrmEntry>, k: int, vram: Vram, j: int)
    requires
        is_largest(entries, k, vram),
        0 <= j < entries.len(),
    ensures
        0 <= k < entries.len(),
        entries[k].reading() == Some(vram),
        entries[j].reading() is Some ==> entries[j].reading()->0.total_bytes <= vram.total_bytes,
        entries[j].reading() is Some && j > k ==> entries[j].reading()->0.total_bytes
            < vram.total_bytes,
{
}

} // verus!
