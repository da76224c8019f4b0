//! The widget that shows how busy the processor is.

use crate::strings::{decimal, parse_i64, parsed_number, push_char, push_decimal, str_eq, ParseError};
use crate::text::{Attributes, Text, TextView};
use vstd::prelude::*;

verus! {

/// The times that the processor has spent since the system started, as the
/// first line of `/proc/stat` gives them. `total_time` is the time it worked:
/// for users, for users at low priority, and for the system.
#[derive(Clone, Copy, Debug, PartialEq, Eq, Structural)]
pub struct CpuData {
    pub user_time: i64,
    pub nice_time: i64,
    pub system_time: i64,
    pub idle_time: i64,
    pub total_time: i64,
    pub iowait_time: i64,
}

/// Why a line of `/proc/stat` could not be read.
#[derive(Clone, Copy, Debug, PartialEq, Eq, Structural)]
pub enum CpuError {
    /// The line holds fewer than five times.
    Missing,
    /// One of the first five times is no number.
    Number(ParseError),
    /// The times that the processor worked do not add up to a number that
    /// fits.
    Overflow,
}

/// The pieces of a line between its blanks. Two blanks in a row have an empty
/// piece between them.
pub open spec fn pieces(line: Seq<char>) -> Seq<Seq<char>>
    decreases line.len(),
{
    if line.len() == 0 {
        seq![Seq::empty()]
    } else {
        let rest = pieces(line.drop_last());
        if line.last() == ' ' {
            rest.push(Seq::empty())
        } else {
            rest.drop_last().push(rest.last().push(line.last()))
        }
    }
}

/// Whether a piece of the line holds a time: it is not empty and not the
/// word `cpu` that the line begins with.
pub open spec fn is_field(piece: Seq<char>) -> bool {
    piece != "cpu"@ && piece.len() > 0
}

/// The pieces that hold a time, in their order.
pub open spec fn fields(pieces: Seq<Seq<char>>) -> Seq<Seq<char>>
    decreases pieces.len(),
{
    if pieces.len() == 0 {
        Seq::empty()
    } else if is_field(pieces.last()) {
        fields(pieces.drop_last()).push(pieces.last())
    } else {
        fields(pieces.drop_last())
    }
}

/// A list of strings as mathematical values.
pub open spec fn strings_view(strings: Seq<String>) -> Seq<Seq<char>> {
    Seq::new(strings.len(), |i: int| strings[i]@)
}

/// A time as the line writes it.
pub open spec fn time_of(field: Seq<char>) -> Result<int, ParseError> {
    parsed_number(field, true, i64::MIN as int, i64::MAX as int)
}

/// The times that a line of `/proc/stat` holds. The first five times on the
/// line are read in their order: for users, for users at low priority, for
/// the system, idle, and waiting. The first that is no number decides the
/// error.
pub open spec fn cpu_data_of(line: Seq<char>) -> Result<CpuData, CpuError> {
    let f = fields(pieces(line));
    if f.len() < 5 {
        Err(CpuError::Missing)
    } else {
        match (time_of(f[0]), time_of(f[1]), time_of(f[2]), time_of(f[3]), time_of(f[4])) {
            (Err(e), _, _, _, _) => Err(CpuError::Number(e)),
            (Ok(_), Err(e), _, _, _) => Err(CpuError::Number(e)),
            (Ok(_), Ok(_), Err(e), _, _) => Err(CpuError::Number(e)),
            (Ok(_), Ok(_), Ok(_), Err(e), _) => Err(CpuError::Number(e)),
            (Ok(_), Ok(_), Ok(_), Ok(_), Err(e)) => Err(CpuError::Number(e)),
            (Ok(user), Ok(nice), Ok(system), Ok(idle), Ok(iowait)) => {
                if i64::MIN <= user + nice + system <= i64::MAX {
                    Ok(
                        CpuData {
                            user_time: user as i64,
                            nice_time: nice as i64,
                            system_time: system as i64,
                            idle_time: idle as i64,
                            total_time: (user + nice + system) as i64,
                            iowait_time: iowait as i64,
                        },
                    )
                } else {
                    Err(CpuError::Overflow)
                }
            },
        }
    }
}

/// All the time that has passed between two readings, as the widget counts
/// it: the time for users, for users at low priority, for the system, idle
/// and waiting, and the time worked once more.
pub open spec fn elapsed(previous: CpuData, current: CpuData) -> int {
    (current.user_time - previous.user_time) + (current.nice_time - previous.nice_time) + (
    current.system_time - previous.system_time) + (current.idle_time - previous.idle_time) + (
    current.iowait_time - previous.iowait_time) + (current.total_time - previous.total_time)
}

/// How much of the time between two readings the processor worked, in whole
/// per cent, rounded down. Zero where no time has passed, and where one of
/// the two went backwards.
pub open spec fn usage_of(previous: CpuData, current: CpuData) -> u64 {
    let all = elapsed(previous, current);
    let busy = current.total_time - previous.total_time;
    if all > 0 && busy > 0 {
        capped((100 * busy) / all)
    } else if all < 0 && busy < 0 {
        capped((100 * -busy) / (-all))
    } else {
        0
    }
}

/// A number, or the largest that a `u64` holds where it is larger.
pub open spec fn capped(n: int) -> u64 {
    if n > u64::MAX {
        u64::MAX
    } else {
        n as u64
    }
}

fn split_blanks(line: &str) -> (r: Vec<String>)
    ensures
        strings_view(r@) == pieces(line@),
{
    let len = line.unicode_len();
    let mut done: Vec<String> = Vec::new();
    let mut current = String::new();
    let mut i: usize = 0;
    proof {
        assert(line@.take(0) =~= Seq::<char>::empty());
        assert(strings_view(done@).push(current@) =~= pieces(line@.take(0)));
    }
    while i < len
        invariant
            i <= len,
            len == line@.len(),
            strings_view(done@).push(current@) == pieces(line@.take(i as int)),
        decreases len - i,
    {
        let c = line.get_char(i);
        proof {
            assert(line@.take(i + 1).drop_last() =~= line@.take(i as int));
            assert(line@.take(i + 1).last() == c);
        }
        let ghost before = strings_view(done@);
        let ghost piece = current@;
        if c == ' ' {
            done.push(current);
            current = String::new();
            assert(strings_view(done@) =~= before.push(piece));
        } else {
            push_char(&mut current, c);
            assert(before.push(piece).drop_last() =~= before);
        }
        i = i + 1;
    }
    proof {
        assert(line@.take(i as int) =~= line@);
    }
    let ghost before = strings_view(done@);
    done.push(current);
    assert(strings_view(done@) =~= before.push(current@));
    done
}

fn keep_fields(all: &Vec<String>) -> (r: Vec<String>)
    ensures
        strings_view(r@) == fields(strings_view(all@)),
{
    let ghost pieces = strings_view(all@);
    let mut kept: Vec<String> = Vec::new();
    let mut i: usize = 0;
    proof {
        assert(pieces.take(0) =~= Seq::<Seq<char>>::empty());
        assert(strings_view(kept@) =~= Seq::<Seq<char>>::empty());
    }
    while i < all.len()
        invariant
            i <= all.len(),
            pieces == strings_view(all@),
            strings_view(kept@) == fields(pieces.take(i as int)),
        decreases all.len() - i,
    {
        proof {
            assert(pieces.take(i + 1).drop_last() =~= pieces.take(i as int));
            assert(pieces.take(i + 1).last() == all@[i as int]@);
        }
        let ghost before = strings_view(kept@);
        let piece = all[i].as_str();
        if !str_eq(piece, "cpu") && piece.unicode_len() > 0 {
            kept.push(all[i].clone());
            assert(strings_view(kept@) =~= before.push(all@[i as int]@));
        }
        i = i + 1;
    }
    proof {
        assert(pieces.take(i as int) =~= pieces);
    }
    kept
}

fn time(field: &String) -> (r: Result<i64, CpuError>)
    ensures
        match r {
            Ok(v) => time_of(field@) == Ok::<int, ParseError>(v as int),
            Err(e) => time_of(field@) is Err && e == CpuError::Number(time_of(field@)->Err_0),
        },
{
    match parse_i64(field.as_str()) {
        Ok(v) => Ok(v),
        Err(e) => Err(CpuError::Number(e)),
    }
}

impl CpuData {
    /// Reads the times of the processor from the first line of `/proc/stat`.
    pub fn get_values(line: &str) -> (r: Result<CpuData, CpuError>)
        ensures
            r == cpu_data_of(line@),
    {
        let all = split_blanks(line);
        let val = keep_fields(&all);
        if val.len() < 5 {
            return Err(CpuError::Missing);
        }
        let ghost f = fields(pieces(line@));
        assert(f[0] == val@[0]@ && f[1] == val@[1]@ && f[2] == val@[2]@ && f[3] == val@[3]@ && f[4]
            == val@[4]@);
        let user_time = match time(&val[0]) {
            Ok(v) => v,
            Err(e) => {
                return Err(e);
            },
        };
        let nice_time = match time(&val[1]) {
            Ok(v) => v,
            Err(e) => {
                return Err(e);
            },
        };
        let system_time = match time(&val[2]) {
            Ok(v) => v,
            Err(e) => {
                return Err(e);
            },
        };
        let idle_time = match time(&val[3]) {
            Ok(v) => v,
            Err(e) => {
                return Err(e);
            },
        };
        let iowait_time = match time(&val[4]) {
            Ok(v) => v,
            Err(e) => {
                return Err(e);
            },
        };
        let total: i128 = user_time as i128 + nice_time as i128 + system_time as i128;
        if total < i64::MIN as i128 || total > i64::MAX as i128 {
            return Err(CpuError::Overflow);
        }
        Ok(
            CpuData {
                user_time,
                nice_time,
                system_time,
                idle_time,
                total_time: total as i64,
                iowait_time,
            },
        )
    }

    /// How much of the time between this reading and a later one the
    /// processor worked, in whole per cent.
    pub fn usage(&self, current: &CpuData) -> (r: u64)
        ensures
            r == usage_of(*self, *current),
    {
        let previous = self;
        let busy: i128 = current.total_time as i128 - previous.total_time as i128;
        let all: i128 = (current.user_time as i128 - previous.user_time as i128) + (
        current.nice_time as i128 - previous.nice_time as i128) + (current.system_time as i128
            - previous.system_time as i128) + (current.idle_time as i128
            - previous.idle_time as i128) + (current.iowait_time as i128
            - previous.iowait_time as i128) + busy;
        let (busy, all): (u128, u128) = if all > 0 && busy > 0 {
            (busy as u128, all as u128)
        } else if all < 0 && busy < 0 {
            ((-busy) as u128, (-all) as u128)
        } else {
            return 0;
        };
        let percentage: u128 = (100 * busy) / all;
        if percentage > u64::MAX as u128 {
            u64::MAX
        } else {
            percentage as u64
        }
    }
}

/// Represents CPU widget used to show current CPU consumptiong
pub struct Cpu {
    pub attr: Attributes,
    pub cpu_data: CpuData,
}

impl Cpu {
    /// Creates a new [`Cpu`] widget.
    ///
    /// Arguments
    ///
    /// * `attr` - Represents `Attributes` which controls properties like
    /// `Font`, foreground and background color etc.
    ///
    /// * `line` - The first line of `/proc/stat` as it is now. The first
    /// usage that the widget shows is counted from it.
    pub fn new(attr: Attributes, line: &str) -> (r: Result<Cpu, CpuError>)
        ensures
            match r {
                Ok(cpu) => cpu_data_of(line@) == Ok::<CpuData, CpuError>(cpu.cpu_data) && cpu.attr@
                    == attr@,
                Err(e) => cpu_data_of(line@) == Err::<CpuData, CpuError>(e),
            },
    {
        match CpuData::get_values(line) {
            Ok(cpu_data) => Ok(Cpu { attr, cpu_data }),
            Err(e) => Err(e),
        }
    }

    /// Takes a new first line of `/proc/stat` and hands back how much the
    /// processor worked since the last one, in whole per cent. The next
    /// usage is counted from this line. A line that cannot be read leaves
    /// the widget as it was.
    pub fn measure(&mut self, line: &str) -> (r: Result<u64, CpuError>)
        ensures
            final(self).attr == old(self).attr,
            match r {
                Ok(usage) => {
                    &&& cpu_data_of(line@) == Ok::<CpuData, CpuError>(final(self).cpu_data)
                    &&& usage == usage_of(old(self).cpu_data, final(self).cpu_data)
                },
                Err(e) => cpu_data_of(line@) == Err::<CpuData, CpuError>(e) && final(self).cpu_data
                    == old(self).cpu_data,
            },
    {
        let current = match CpuData::get_values(line) {
            Ok(data) => data,
            Err(e) => {
                return Err(e);
            },
        };
        let usage = self.cpu_data.usage(&current);
        self.cpu_data = current;
        Ok(usage)
    }

    /// The one text that the widget shows. `rendered` is what the caller's
    /// own way of writing the usage gave, where there is one.
    pub open spec fn shown(self, usage: u64, rendered: Option<Seq<char>>) -> TextView {
        TextView {
            attr: self.attr@,
            text: match rendered {
                Some(text) => text,
                None => decimal(usage as nat) + " %"@,
            },
            stretch: false,
            markup: true,
        }
    }

    /// The texts for a usage in per cent.
    pub fn tick(&self, usage: u64, rendered: Option<String>) -> (r: Vec<Text>)
        ensures
            r@.len() == 1,
            r@[0]@ == self.shown(
                usage,
                match rendered {
                    Some(text) => Some(text@),
                    None => None,
                },
            ),
    {
        let text = match rendered {
            Some(text) => text,
            None => {
                let mut text = String::new();
                push_decimal(&mut text, usage);
                text.append(" %");
                assert(text@ =~= decimal(usage as nat) + " %"@);
                text
            },
        };
        let mut texts = Vec::new();
        texts.push(Text { attr: self.attr.clone(), text, stretch: false, markup: true });
        texts
    }
}

} // verus!
