//! The command line of the runner: the process that runs one machine on
//! macOS.

use vstd::prelude::*;
use crate::text::{chars_of, join2, parse_decimal, parse_decimal_from};

verus! {

/// What the runner was asked to do.
#[derive(Debug, PartialEq, Eq)]
pub struct Args {
    /// The boot image.
    pub kernel: String,
    /// The initial ramdisk, if there is one.
    pub initrd: Option<String>,
    /// The disk image.
    pub disk: String,
    /// How many processors the machine gets.
    pub cpus: usize,
    /// How much memory the machine gets, in megabytes.
    pub memory_mb: u64,
    /// The kernel command line.
    pub cmdline: String,
    /// The file to create once the machine has started, if one is wanted.
    pub ready_file: Option<String>,
}

/// What [`Args`] are, as plain values.
pub struct ArgsView {
    pub kernel: Seq<char>,
    pub initrd: Option<Seq<char>>,
    pub disk: Seq<char>,
    pub cpus: usize,
    pub memory_mb: u64,
    pub cmdline: Seq<char>,
    pub ready_file: Option<Seq<char>>,
}

/// The view of an optional text.
pub open spec fn optional_arg(text: Option<String>) -> Option<Seq<char>> {
    match text {
        Some(t) => Some(t@),
        None => None,
    }
}

impl View for Args {
    type V = ArgsView;

    open spec fn view(&self) -> ArgsView {
        ArgsView {
            kernel: self.kernel@,
            initrd: optional_arg(self.initrd),
            disk: self.disk@,
            cpus: self.cpus,
            memory_mb: self.memory_mb,
            cmdline: self.cmdline@,
            ready_file: optional_arg(self.ready_file),
        }
    }
}

/// How the runner is used.
pub open spec fn usage_text() -> Seq<char> {
    "Usage:\n  cargobay-vz --kernel <path> --disk <path> --cpus <n> --memory-mb <n> [--initrd <path>] [--cmdline <str>] [--ready-file <path>]\n"@
}

/// What has been read of a command line so far.
pub struct Seen {
    pub kernel: Option<Seq<char>>,
    pub initrd: Option<Seq<char>>,
    pub disk: Option<Seq<char>>,
    pub cpus: Option<usize>,
    pub memory_mb: Option<u64>,
    pub cmdline: Option<Seq<char>>,
    pub ready_file: Option<Seq<char>>,
}

/// Nothing read.
pub open spec fn nothing_seen() -> Seen {
    Seen {
        kernel: None,
        initrd: None,
        disk: None,
        cpus: None,
        memory_mb: None,
        cmdline: None,
        ready_file: None,
    }
}

/// The number of processors that a numeral names.
pub open spec fn cpus_in(text: Seq<char>) -> Option<usize> {
    match parse_decimal(text) {
        Some(n) => if n <= usize::MAX {
            Some(n as usize)
        } else {
            None
        },
        None => None,
    }
}

/// What the words `words[at..]` add to what has been read, or the complaint
/// about the first word that is out of place. A flag takes the word after it
/// as its value; a later value for a flag replaces an earlier one.
pub open spec fn read_words(words: Seq<Seq<char>>, at: int, seen: Seen) -> Result<Seen, Seq<char>>
    decreases words.len() - at,
{
    if at < 0 || at >= words.len() {
        Ok(seen)
    } else {
        let flag = words[at];
        let value = if at + 1 < words.len() {
            Some(words[at + 1])
        } else {
            None
        };
        if flag == "--help"@ || flag == "-h"@ {
            Err(usage_text())
        } else if flag == "--kernel"@ {
            match value {
                None => Err("--kernel requires a value"@),
                Some(v) => read_words(words, at + 2, Seen { kernel: Some(v), ..seen }),
            }
        } else if flag == "--initrd"@ {
            match value {
                None => Err("--initrd requires a value"@),
                Some(v) => read_words(words, at + 2, Seen { initrd: Some(v), ..seen }),
            }
        } else if flag == "--disk"@ {
            match value {
                None => Err("--disk requires a value"@),
                Some(v) => read_words(words, at + 2, Seen { disk: Some(v), ..seen }),
            }
        } else if flag == "--cpus"@ {
            match value {
                None => Err("--cpus requires a value"@),
                Some(v) => match cpus_in(v) {
                    None => Err("Invalid --cpus"@),
                    Some(n) => read_words(words, at + 2, Seen { cpus: Some(n), ..seen }),
                },
            }
        } else if flag == "--memory-mb"@ {
            match value {
                None => Err("--memory-mb requires a value"@),
                Some(v) => match parse_decimal(v) {
                    None => Err("Invalid --memory-mb"@),
                    Some(n) => read_words(words, at + 2, Seen { memory_mb: Some(n), ..seen }),
                },
            }
        } else if flag == "--cmdline"@ {
            match value {
                None => Err("--cmdline requires a value"@),
                Some(v) => read_words(words, at + 2, Seen { cmdline: Some(v), ..seen }),
            }
        } else if flag == "--ready-file"@ {
            match value {
                None => Err("--ready-file requires a value"@),
                Some(v) => read_words(words, at + 2, Seen { ready_file: Some(v), ..seen }),
            }
        } else {
            Err("Unknown argument: "@ + flag)
        }
    }
}

/// The arguments that what was read amounts to, or the complaint about the
/// first thing that is missing. A command line that names none gets the
/// console on the first virtual terminal.
pub open spec fn complete(seen: Seen) -> Result<ArgsView, Seq<char>> {
    if seen.kernel is None {
        Err("Missing --kernel"@)
    } else if seen.disk is None {
        Err("Missing --disk"@)
    } else if seen.cpus is None {
        Err("Missing --cpus"@)
    } else if seen.memory_mb is None {
        Err("Missing --memory-mb"@)
    } else {
        Ok(
            ArgsView {
                kernel: seen.kernel->0,
                initrd: seen.initrd,
                disk: seen.disk->0,
                cpus: seen.cpus->0,
                memory_mb: seen.memory_mb->0,
                cmdline: match seen.cmdline {
                    Some(c) => c,
                    None => "console=hvc0"@,
                },
                ready_file: seen.ready_file,
            },
        )
    }
}

/// What a command line asks for, or what is wrong with it.
pub open spec fn parsed(words: Seq<Seq<char>>) -> Result<ArgsView, Seq<char>> {
    match read_words(words, 0, nothing_seen()) {
        Err(complaint) => Err(complaint),
        Ok(seen) => complete(seen),
    }
}

/// The views of words, in order.
pub open spec fn word_views(words: Seq<String>) -> Seq<Seq<char>> {
    Seq::new(words.len(), |i: int| words[i]@)
}

/// The view of what parsing gives.
pub open spec fn parse_view(r: Result<Args, String>) -> Result<ArgsView, Seq<char>> {
    match r {
        Ok(args) => Ok(args@),
        Err(complaint) => Err(complaint@),
    }
}

fn is_word(word: &String, literal: &str) -> (same: bool)
    ensures
        same == (word@ == literal@),
{
    let other = literal.to_owned();
    *word == other
}

fn read_number(text: &String) -> (n: Option<u64>)
    ensures
        n == parse_decimal(text@),
{
    let chars = chars_of(text.as_str());
    proof {
        assert(chars@.skip(0) =~= chars@);
    }
    parse_decimal_from(&chars, 0)
}

impl Args {
    /// How the runner is used.
    pub fn usage() -> (text: &'static str)
        ensures
            text@ == usage_text(),
    {
        "Usage:\n  cargobay-vz --kernel <path> --disk <path> --cpus <n> --memory-mb <n> [--initrd <path>] [--cmdline <str>] [--ready-file <path>]\n"
    }

    /// Reads the words of a command line, the name of the program left out.
    pub fn parse(words: &Vec<String>) -> (r: Result<Args, String>)
        ensures
            parse_view(r) == parsed(word_views(words@)),
    {
        let ghost all = word_views(words@);
        let mut kernel: Option<String> = None;
        let mut initrd: Option<String> = None;
        let mut disk: Option<String> = None;
        let mut cpus: Option<usize> = None;
        let mut memory_mb: Option<u64> = None;
        let mut cmdline: Option<String> = None;
        let mut ready_file: Option<String> = None;
        let mut i: usize = 0;
        while i < words.len()
            invariant
                i <= words.len(),
                all == word_views(words@),
                read_words(all, 0, nothing_seen()) == read_words(
                    all,
                    i as int,
                    Seen {
                        kernel: optional_arg(kernel),
                        initrd: optional_arg(initrd),
                        disk: optional_arg(disk),
                        cpus: cpus,
                        memory_mb: memory_mb,
                        cmdline: optional_arg(cmdline),
                        ready_file: optional_arg(ready_file),
                    },
                ),
            decreases words.len() - i,
        {
            let flag = &words[i];
            proof {
                assert(all[i as int] == flag@);
                if i + 1 < words.len() {
                    assert(all[i + 1] == words@[i + 1]@);
                }
            }
            let has_value = i + 1 < words.len();
            if is_word(flag, "--help") || is_word(flag, "-h") {
                return Err(Self::usage().to_owned());
            } else if is_word(flag, "--kernel") {
                if !has_value {
                    return Err("--kernel requires a value".to_owned());
                }
                kernel = Some(words[i + 1].clone());
            } else if is_word(flag, "--initrd") {
                if !has_value {
                    return Err("--initrd requires a value".to_owned());
                }
                initrd = Some(words[i + 1].clone());
            } else if is_word(flag, "--disk") {
                if !has_value {
                    return Err("--disk requires a value".to_owned());
                }
                disk = Some(words[i + 1].clone());
            } else if is_word(flag, "--cpus") {
                if !has_value {
                    return Err("--cpus requires a value".to_owned());
                }
                match read_number(&words[i + 1]) {
                    None => {
                        return Err("Invalid --cpus".to_owned());
                    },
                    Some(n) => {
                        if n > usize::MAX as u64 {
                            return Err("Invalid --cpus".to_owned());
                        }
                        cpus = Some(n as usize);
                    },
                }
            } else if is_word(flag, "--memory-mb") {
                if !has_value {
                    return Err("--memory-mb requires a value".to_owned());
                }
                match read_number(&words[i + 1]) {
                    None => {
                        return Err("Invalid --memory-mb".to_owned());
                    },
                    Some(n) => {
                        memory_mb = Some(n);
                    },
                }
            } else if is_word(flag, "--cmdline") {
                if !has_value {
                    return Err("--cmdline requires a value".to_owned());
                }
                cmdline = Some(words[i + 1].clone());
            } else if is_word(flag, "--ready-file") {
                if !has_value {
                    return Err("--ready-file requires a value".to_owned());
                }
                ready_file = Some(words[i + 1].clone());
            } else {
                return Err(join2("Unknown argument: ", flag.as_str()));
            }
            i = i + 2;
        }
        let kernel = match kernel {
            Some(k) => k,
            None => {
                return Err("Missing --kernel".to_owned());
            },
        };
        let disk = match disk {
            Some(d) => d,
            None => {
                return Err("Missing --disk".to_owned());
            },
        };
        let cpus = match cpus {
            Some(c) => c,
            None => {
                return Err("Missing --cpus".to_owned());
            },
        };
        let memory_mb = match memory_mb {
            Some(m) => m,
            None => {
                return Err("Missing --memory-mb".to_owned());
            },
        };
        let cmdline = match cmdline {
            Some(c) => c,
            None => "console=hvc0".to_owned(),
        };
        Ok(Args { kernel, initrd, disk, cpus, memory_mb, cmdline, ready_file })
    }

    /// The memory of the machine in bytes, held at the largest number that
    /// can be written down.
    pub fn memory_bytes(&self) -> (bytes: u64)
        ensures
            bytes == if self.memory_mb * 1_048_576 > u64::MAX {
                u64::MAX
            } else {
                (self.memory_mb * 1_048_576) as u64
            },
    {
        if self.memory_mb > 17_592_186_044_415 {
            u64::MAX
        } else {
            self.memory_mb * 1_048_576
        }
    }
}

} // verus!
