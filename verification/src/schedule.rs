//! Refresh schedules: the word `realtime`, or a cron expression of five
//! fields.

use vstd::prelude::*;

verus! {

/// Whether `c` may stand in a field of a cron expression: a digit, a
/// letter, or one of `*`, `,`, `-`, `/`.
pub open spec fn cron_char(c: char) -> bool {
    let n = c as u32;
    ||| 48 <= n <= 57
    ||| 65 <= n <= 90
    ||| 97 <= n <= 122
    ||| c == '*'
    ||| c == ','
    ||| c == '-'
    ||| c == '/'
}

/// Number of spaces in `s`.
pub open spec fn count_spaces(s: Seq<char>) -> nat
    decreases s.len(),
{
    if s.len() == 0 {
        0
    } else {
        count_spaces(s.drop_last()) + if s.last() == ' ' {
            1nat
        } else {
            0nat
        }
    }
}

/// Whether every character of `s` is a space or may stand in a field, and
/// no space stands first or behind another space.
pub open spec fn fields_well_formed(s: Seq<char>) -> bool {
    forall|i: int|
        0 <= i < s.len() ==> if #[trigger] s[i] == ' ' {
            i > 0 && s[i - 1] != ' '
        } else {
            cron_char(s[i])
        }
}

/// Whether `s` is a cron expression: five fields that are not empty, with
/// one space between two fields and none before the first or behind the
/// last.
pub open spec fn is_cron(s: Seq<char>) -> bool {
    &&& s.len() > 0
    &&& s.last() != ' '
    &&& fields_well_formed(s)
    &&& count_spaces(s) == 4
}

/// Whether `s` is a schedule: the word `realtime`, or a cron expression.
pub open spec fn valid_schedule(s: Seq<char>) -> bool {
    s == "realtime"@ || is_cron(s)
}

/// Whether `c` may stand in a field of a cron expression.
pub fn is_cron_char(c: char) -> (ok: bool)
    ensures
        ok == cron_char(c),
{
    let n: u32 = c as u32;
    (48 <= n && n <= 57) || (65 <= n && n <= 90) || (97 <= n && n <= 122) || c == '*' || c == ','
        || c == '-' || c == '/'
}

/// Whether `schedule` is the word `realtime` or a cron expression of five
/// fields.
pub fn is_valid_schedule(schedule: &str) -> (ok: bool)
    ensures
        ok == valid_schedule(schedule@),
{
    if String::from_str(schedule) == String::from_str("realtime") {
        return true;
    }
    let len: usize = schedule.unicode_len();
    if len == 0 {
        return false;
    }
    let mut spaces: usize = 0;
    let mut after_space: bool = true;
    let mut i: usize = 0;
    while i < len
        invariant
            i <= len,
            len == schedule@.len(),
            schedule@ != "realtime"@,
            spaces <= i,
            spaces == count_spaces(schedule@.take(i as int)),
            fields_well_formed(schedule@.take(i as int)),
            after_space == (i == 0 || schedule@[i - 1] == ' '),
        decreases len - i,
    {
        let c = schedule.get_char(i);
        let ghost head = schedule@.take(i as int);
        let ghost next = schedule@.take(i + 1);
        proof {
            assert(next.drop_last() =~= head);
            assert(next.last() == c);
        }
        if c == ' ' {
            if after_space {
                proof {
                    assert(!fields_well_formed(schedule@)) by {
                        if fields_well_formed(schedule@) {
                            assert(schedule@[i as int] == ' ');
                        }
                    }
                }
                return false;
            }
            spaces = spaces + 1;
            after_space = true;
        } else {
            if !is_cron_char(c) {
                proof {
                    assert(!fields_well_formed(schedule@)) by {
                        if fields_well_formed(schedule@) {
                            assert(schedule@[i as int] == c);
                        }
                    }
                }
                return false;
            }
            after_space = false;
        }
        proof {
            assert forall|j: int| 0 <= j < next.len() implies if #[trigger] next[j] == ' ' {
                j > 0 && next[j - 1] != ' '
            } else {
                cron_char(next[j])
            } by {
                if j < i {
                    assert(head[j] == next[j]);
                    if j > 0 {
                        assert(head[j - 1] == next[j - 1]);
                    }
                }
            }
        }
        i = i + 1;
    }
    proof {
        assert(schedule@.take(i as int) =~= schedule@);
    }
    !after_space && spaces == 4
}

} // verus!
