//! The symbol table builder: from the text of a header to the table of its
//! `#define` lines and the duplicate flag.

use crate::config::{Configuration, Settings};
use crate::error::{Error, Failure};
use crate::literal::{parse_value_chars, parse_value_spec};
use crate::name::{normalize_chars, normalize_spec};
use crate::scanner::{lines_of, scan_chars, scan_line_spec, split_lines, views};
use crate::table::{define, lookup, values_collide, Entries, SymbolTable};
use crate::text::chars_of;
use vstd::prelude::*;

verus! {

/// What has been built after some lines: the entries so far, and whether a
/// value was obtained from another name.
pub struct Progress {
    pub entries: Entries,
    pub alias_used: bool,
}

/// The normalized form of a raw name under the settings.
pub open spec fn normalized(raw: Seq<char>, settings: Settings) -> Seq<char> {
    normalize_spec(raw, settings.remove_prefix, settings.remove_suffix, settings.case_mode)
}

/// The effect of one line. A line that is no `#define` line changes
/// nothing. A `#define` line defines its normalized name: with the number
/// that its value token denotes, where that is a literal; else with the
/// value that the entries so far hold for the normalized value token, which
/// must be defined already.
pub open spec fn apply_line(progress: Progress, line: Seq<char>, settings: Settings) -> Result<
    Progress,
    Failure,
> {
    match scan_line_spec(line) {
        Err(f) => Err(f),
        Ok(None) => Ok(progress),
        Ok(Some((raw_name, raw_value))) => {
            let name = normalized(raw_name, settings);
            match parse_value_spec(raw_value) {
                Some(value) => Ok(
                    Progress {
                        entries: define(progress.entries, name, value),
                        alias_used: progress.alias_used,
                    },
                ),
                None => {
                    let reference = normalized(raw_value, settings);
                    match lookup(progress.entries, reference) {
                        Some(value) => Ok(
                            Progress {
                                entries: define(progress.entries, name, value),
                                alias_used: true,
                            },
                        ),
                        None => Err(Failure::DefinedAhead { name, reference }),
                    }
                },
            }
        },
    }
}

/// The effect of a sequence of lines, taken in order from nothing; the
/// first line that fails ends it.
pub open spec fn apply_lines(lines: Seq<Seq<char>>, settings: Settings) -> Result<
    Progress,
    Failure,
>
    decreases lines.len(),
{
    if lines.len() == 0 {
        Ok(Progress { entries: Seq::<(Seq<char>, usize)>::empty(), alias_used: false })
    } else {
        match apply_lines(lines.drop_last(), settings) {
            Err(f) => Err(f),
            Ok(progress) => apply_line(progress, lines.last(), settings),
        }
    }
}

/// The duplicate flag of what has been built: a value was obtained from
/// another name, or there are fewer distinct values than entries.
pub open spec fn duplicate_flag(progress: Progress) -> bool {
    progress.alias_used || values_collide(progress.entries)
}

/// The entries and the duplicate flag that the settings' text gives.
pub open spec fn symbols_spec(settings: Settings) -> Result<(Entries, bool), Failure> {
    match apply_lines(split_lines(settings.source_text), settings) {
        Err(f) => Err(f),
        Ok(progress) => Ok((progress.entries, duplicate_flag(progress))),
    }
}

/// Once some leading lines have failed, the whole fails in the same way.
pub proof fn lemma_failure_stays(lines: Seq<Seq<char>>, settings: Settings, n: int)
    requires
        0 <= n <= lines.len(),
        apply_lines(lines.take(n), settings) is Err,
    ensures
        apply_lines(lines, settings) == apply_lines(lines.take(n), settings),
    decreases lines.len(),
{
    if n == lines.len() {
        assert(lines.take(n) =~= lines);
    } else {
        assert(lines.drop_last().take(n) =~= lines.take(n));
        lemma_failure_stays(lines.drop_last(), settings, n);
    }
}

/// Names stay distinct through every line.
pub proof fn lemma_names_stay_distinct(lines: Seq<Seq<char>>, settings: Settings)
    ensures
        apply_lines(lines, settings) matches Ok(progress) ==> crate::table::names_distinct(
            progress.entries,
        ),
    decreases lines.len(),
{
    if lines.len() > 0 {
        lemma_names_stay_distinct(lines.drop_last(), settings);
        if let Ok(before) = apply_lines(lines.drop_last(), settings) {
            if let Ok(Some((raw_name, raw_value))) = scan_line_spec(lines.last()) {
                let name = normalized(raw_name, settings);
                match parse_value_spec(raw_value) {
                    Some(value) => {
                        crate::table::lemma_define(before.entries, name, value);
                    },
                    None => {
                        let reference = normalized(raw_value, settings);
                        if let Some(value) = lookup(before.entries, reference) {
                            crate::table::lemma_define(before.entries, name, value);
                        }
                    },
                }
            }
        }
    }
}

/// The alias flag never reverts: once a value was obtained from another
/// name, every later line leaves the flag set.
pub proof fn lemma_alias_flag_stays(progress: Progress, line: Seq<char>, settings: Settings)
    requires
        progress.alias_used,
    ensures
        apply_line(progress, line, settings) matches Ok(after) ==> after.alias_used,
{
}

/// Builds the symbol table of the configuration's text, line by line, and
/// says whether it holds duplicates. Fails at the first `#define` line that
/// lacks its name or value, or whose value is neither a literal nor a name
/// that an earlier line defined.
pub fn parse_c_define_strings(input: &Configuration) -> (r: Result<(SymbolTable, bool), Error>)
    ensures
        match r {
            Ok((table, has_duplicates)) => {
                &&& table.wf()
                &&& symbols_spec(input@) == Ok::<(Entries, bool), Failure>(
                    (table.entries(), has_duplicates),
                )
            },
            Err(e) => symbols_spec(input@) == Err::<(Entries, bool), Failure>(e@),
        },
{
    let text = chars_of(input.source_text.as_str());
    let prefix = chars_of(input.remove_prefix.as_str());
    let suffix = chars_of(input.remove_suffix.as_str());
    let keyword = chars_of("#define");
    let mode = input.case_mode;
    let lines = lines_of(text.as_slice());
    let ghost settings = input@;
    let ghost all = views(lines@);

    let mut table = SymbolTable::new();
    let mut alias_used = false;
    let mut i: usize = 0;
    while i < lines.len()
        invariant
            i <= lines.len(),
            all == views(lines@),
            all == split_lines(settings.source_text),
            settings == input@,
            prefix@ == settings.remove_prefix,
            suffix@ == settings.remove_suffix,
            mode == settings.case_mode,
            keyword@ == "#define"@,
            table.wf(),
            apply_lines(all.take(i as int), settings) == Ok::<Progress, Failure>(
                Progress { entries: table.entries(), alias_used },
            ),
        decreases lines.len() - i,
    {
        let ghost before = Progress { entries: table.entries(), alias_used };
        proof {
            assert(all.take(i + 1).drop_last() =~= all.take(i as int));
            assert(all.take(i + 1).last() == lines@[i as int]@);
            assert(apply_lines(all.take(i + 1), settings) == apply_line(
                before,
                lines@[i as int]@,
                settings,
            ));
        }
        match scan_chars(lines[i].as_slice(), keyword.as_slice()) {
            Err(e) => {
                proof {
                    lemma_failure_stays(all, settings, i + 1);
                }
                return Err(e);
            },
            Ok(None) => {},
            Ok(Some((raw_name, raw_value))) => {
                let name = normalize_chars(
                    raw_name.as_slice(),
                    prefix.as_slice(),
                    suffix.as_slice(),
                    mode,
                );
                let value = match parse_value_chars(raw_value.as_slice()) {
                    Some(value) => value,
                    None => {
                        let reference = normalize_chars(
                            raw_value.as_slice(),
                            prefix.as_slice(),
                            suffix.as_slice(),
                            mode,
                        );
                        match table.get(reference.as_str()) {
                            Some(value) => {
                                alias_used = true;
                                value
                            },
                            None => {
                                proof {
                                    lemma_failure_stays(all, settings, i + 1);
                                }
                                return Err(Error::DefinedAhead { name, reference });
                            },
                        }
                    },
                };
                table.insert(name, value);
            },
        }
        i += 1;
    }
    assert(all.take(i as int) =~= all);
    let has_duplicates = alias_used || table.values_collide();
    Ok((table, has_duplicates))
}

} // verus!
