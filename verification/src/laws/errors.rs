//! Which failures may be retried.

use vstd::prelude::*;

use crate::envelope::{
    begins_with_any, code_at, connection_failure, contains_any, lemma_connection_prefix,
    lost_code_at, names_lost_connection, whole_code_at, CONNECTION_PREFIXES, CONNECTION_WORDS,
    LOST_CONNECTION_CODES, NETWORK_CODES, PARAMETER_PREFIXES,
};
use crate::text::{begins_with, contains_text, lower, lower_char, occurs_at};

verus! {

/// Whatever keeps a connection from being had or made ready, and a call that ran
/// out of time, may be retried, whatever the reason.
pub proof fn lemma_own_connection_messages_are_retryable(reason: Seq<char>)
    ensures
        connection_failure("Oracle connect/login failed: "@ + reason),
        connection_failure("Oracle connect worker task failed: "@ + reason),
        connection_failure("Oracle pool acquire failed: "@ + reason),
        connection_failure("Oracle pool acquire timed out"@),
        connection_failure("Oracle call timed out"@),
        connection_failure("Oracle set_call_timeout failed: "@ + reason),
{
    reveal_strlit("Oracle connect/login failed: ");
    reveal_strlit("oracle connect/login failed");
    assert(lower("Oracle connect/login failed: "@ + reason).subrange(0, 27) =~= "oracle connect/login failed"@);
    lemma_connection_prefix("Oracle connect/login failed: "@ + reason, 0);
    reveal_strlit("Oracle connect worker task failed: ");
    reveal_strlit("oracle connect worker task failed");
    assert(lower("Oracle connect worker task failed: "@ + reason).subrange(0, 33) =~= "oracle connect worker task failed"@);
    lemma_connection_prefix("Oracle connect worker task failed: "@ + reason, 1);
    reveal_strlit("Oracle pool acquire failed: ");
    reveal_strlit("oracle pool acquire failed");
    assert(lower("Oracle pool acquire failed: "@ + reason).subrange(0, 26) =~= "oracle pool acquire failed"@);
    lemma_connection_prefix("Oracle pool acquire failed: "@ + reason, 2);
    reveal_strlit("Oracle pool acquire timed out");
    reveal_strlit("oracle pool acquire timed out");
    assert(lower("Oracle pool acquire timed out"@).subrange(0, 29) =~= "oracle pool acquire timed out"@);
    lemma_connection_prefix("Oracle pool acquire timed out"@, 3);
    reveal_strlit("Oracle call timed out");
    reveal_strlit("oracle call timed out");
    assert(lower("Oracle call timed out"@).subrange(0, 21) =~= "oracle call timed out"@);
    lemma_connection_prefix("Oracle call timed out"@, 4);
    reveal_strlit("Oracle set_call_timeout failed: ");
    reveal_strlit("oracle set_call_timeout failed");
    assert(lower("Oracle set_call_timeout failed: "@ + reason).subrange(0, 30) =~= "oracle set_call_timeout failed"@);
    lemma_connection_prefix("Oracle set_call_timeout failed: "@ + reason, 5);
}

/// Parameters that could not be evaluated or bound may not be retried, whatever
/// the reason says.
pub proof fn lemma_parameter_failures_are_not_retryable(reason: Seq<char>)
    ensures
        !connection_failure("evaluating params: "@ + reason),
        !connection_failure("binding params: "@ + reason),
{
    let a = lower("evaluating params: "@ + reason);
    let b = lower("binding params: "@ + reason);
    reveal_strlit("evaluating params: ");
    reveal_strlit("binding params: ");
    assert(a.subrange(0, 19) =~= "evaluating params: "@);
    assert(b.subrange(0, 16) =~= "binding params: "@);
    assert(begins_with(a, PARAMETER_PREFIXES@[0]@));
    assert(begins_with(b, PARAMETER_PREFIXES@[1]@));
}

/// The digits of an `ORA-` code of a lost connection, of the network or of a
/// timeout.
pub open spec fn lost_digits(d: Seq<char>) -> bool {
    ||| d == "03050"@
    ||| d == "03051"@
    ||| d == "03052"@
    ||| d == "03053"@
    ||| d == "03054"@
    ||| d == "03055"@
    ||| d == "03056"@
    ||| d == "03057"@
    ||| d == "03058"@
    ||| d == "03059"@
    ||| d == "03113"@
    ||| d == "03114"@
    ||| d == "03135"@
    ||| d == "00051"@
    ||| d == "00054"@
    ||| d == "01073"@
    ||| d == "01090"@
    ||| d == "01092"@
    ||| d == "02049"@
    ||| d == "02396"@
    ||| d == "02399"@
    ||| d == "03136"@
    ||| d == "03156"@
    ||| d == "04021"@
    ||| d == "12153"@
    ||| d == "12154"@
    ||| d == "12170"@
    ||| d == "12203"@
    ||| d == "12502"@
    ||| d == "12504"@
    ||| d == "12505"@
    ||| d == "12514"@
    ||| d == "12518"@
    ||| d == "12521"@
    ||| d == "12523"@
    ||| d == "12527"@
    ||| d == "12528"@
    ||| d == "12529"@
    ||| d == "12535"@
    ||| d == "12537"@
    ||| d == "12545"@
    ||| d == "12564"@
    ||| d == "12606"@
    ||| d == "12608"@
    ||| d == "12609"@
    ||| d == "24401"@
    ||| d == "24457"@
    ||| d == "24459"@
    ||| d == "24496"@
    ||| d == "25228"@
    ||| d == "25403"@
    ||| d == "28511"@
    ||| d == "28545"@
    ||| d == "28546"@
    ||| d == "28547"@
    ||| d == "29276"@
    ||| d == "30006"@
}

/// The digits of a `DPI-` code of a lost connection or of a timeout.
pub open spec fn lost_driver_digits(d: Seq<char>) -> bool {
    ||| d == "1010"@
    ||| d == "1067"@
    ||| d == "1080"@
}

/// What stands before and behind a code leaves it a code: no letter, digit or
/// underscore before it, and no digit behind it.
pub open spec fn apart(before: Seq<char>, after: Seq<char>) -> bool {
    &&& before.len() > 0 ==> !('a' <= before.last() <= 'z' || 'A' <= before.last() <= 'Z' || '0'
        <= before.last() <= '9' || before.last() == '_')
    &&& after.len() > 0 ==> !('0' <= after[0] <= '9')
}

proof fn lemma_code_stands(
    before: Seq<char>,
    letters: Seq<char>,
    small: Seq<char>,
    d: Seq<char>,
    after: Seq<char>,
)
    requires
        apart(before, after),
        letters.len() == 4,
        small == lower(letters),
        small == "ora-"@ || small == "dpi-"@,
        d.len() > 0,
        forall|j: int| 0 <= j < d.len() ==> '0' <= #[trigger] d[j] <= '9',
    ensures
        ({
            let text = lower(before + letters + d + after);
            &&& code_at(text, before.len() as int)
            &&& whole_code_at(text, small + d, before.len() as int)
        }),
{
    let message = before + letters + d + after;
    let text = lower(message);
    let i = before.len() as int;
    assert(text.subrange(i, i + 4) =~= small) by {
        assert forall|k: int| 0 <= k < 4 implies text[i + k] == small[k] by {
            assert(message[i + k] == letters[k]);
        }
    }
    assert(message[i + 4] == d[0]);
    assert('0' <= d[0] <= '9');
    assert(text[i + 4] == d[0]);
    if i > 0 {
        assert(message[i - 1] == before.last());
        assert(text[i - 1] == lower_char(before.last()));
    }
    let code = small + d;
    assert(text.subrange(i, i + code.len()) =~= code) by {
        assert forall|k: int| 0 <= k < code.len() implies text[i + k] == code[k] by {
            if k < 4 {
                assert(message[i + k] == letters[k]);
            } else {
                assert(message[i + k] == d[k - 4]);
                assert('0' <= d[k - 4] <= '9');
            }
        }
    }
    if i + code.len() < text.len() {
        assert(message[i + code.len()] == after[0]);
        assert(text[i + code.len()] == lower_char(after[0]));
    }
}

/// A message that names the code of a lost connection, of the network or of a
/// timeout may be retried, wherever the code stands and whatever stands round
/// it, unless the message is about parameters.
pub proof fn lemma_lost_connection_codes_are_retryable(
    before: Seq<char>,
    d: Seq<char>,
    after: Seq<char>,
)
    requires
        lost_digits(d),
        apart(before, after),
        !begins_with(lower(before + "ORA-"@ + d + after), "evaluating params: "@),
        !begins_with(lower(before + "ORA-"@ + d + after), "binding params: "@),
    ensures
        connection_failure(before + "ORA-"@ + d + after),
{
    let text = lower(before + "ORA-"@ + d + after);
    let i = before.len() as int;
    reveal_strlit("ORA-");
    reveal_strlit("ora-");
    assert(lower("ORA-"@) =~= "ora-"@);
    lemma_lost_digits(d);
    lemma_code_stands(before, "ORA-"@, "ora-"@, d, after);
    assert(lost_code_at(text, i));
    lemma_no_parameter_prefix(text);
}

proof fn lemma_no_parameter_prefix(text: Seq<char>)
    requires
        !begins_with(text, "evaluating params: "@),
        !begins_with(text, "binding params: "@),
    ensures
        !begins_with_any(text, PARAMETER_PREFIXES@),
{
    assert forall|k: int| 0 <= k < PARAMETER_PREFIXES@.len() implies !begins_with(
        text,
        #[trigger] PARAMETER_PREFIXES@[k]@,
    ) by {
        assert(k == 0 || k == 1);
    }
}

proof fn lemma_lost_digits(d: Seq<char>)
    requires
        lost_digits(d),
    ensures
        d.len() == 5,
        forall|j: int| 0 <= j < d.len() ==> '0' <= #[trigger] d[j] <= '9',
        (exists|k: int|
            0 <= k < LOST_CONNECTION_CODES@.len() && #[trigger] LOST_CONNECTION_CODES@[k]@
                == "ora-"@ + d) || (exists|k: int|
            0 <= k < NETWORK_CODES@.len() && #[trigger] NETWORK_CODES@[k]@ == "ora-"@ + d),
{
    if d == "03050"@ || d == "03051"@ || d == "03052"@ || d == "03053"@ || d == "03054"@ || d == "03055"@ || d == "03056"@ || d == "03057"@ || d == "03058"@ || d == "03059"@ {
        lemma_lost_digits_1(d);
    } else if d == "03113"@ || d == "03114"@ || d == "03135"@ || d == "00051"@ || d == "00054"@ || d == "01073"@ || d == "01090"@ || d == "01092"@ || d == "02049"@ || d == "02396"@ {
        lemma_lost_digits_2(d);
    } else if d == "02399"@ || d == "03136"@ || d == "03156"@ || d == "04021"@ || d == "12153"@ || d == "12154"@ || d == "12170"@ || d == "12203"@ || d == "12502"@ || d == "12504"@ {
        lemma_lost_digits_3(d);
    } else if d == "12505"@ || d == "12514"@ || d == "12518"@ || d == "12521"@ || d == "12523"@ || d == "12527"@ || d == "12528"@ || d == "12529"@ || d == "12535"@ || d == "12537"@ {
        lemma_lost_digits_4(d);
    } else if d == "12545"@ || d == "12564"@ || d == "12606"@ || d == "12608"@ || d == "12609"@ || d == "24401"@ || d == "24457"@ || d == "24459"@ || d == "24496"@ || d == "25228"@ {
        lemma_lost_digits_5(d);
    } else if d == "25403"@ || d == "28511"@ || d == "28545"@ || d == "28546"@ || d == "28547"@ || d == "29276"@ || d == "30006"@ {
        lemma_lost_digits_6(d);
    }
}

proof fn lemma_lost_digits_1(d: Seq<char>)
    requires
        d == "03050"@ || d == "03051"@ || d == "03052"@ || d == "03053"@ || d == "03054"@ || d == "03055"@ || d == "03056"@ || d == "03057"@ || d == "03058"@ || d == "03059"@,
    ensures
        d.len() == 5,
        forall|j: int| 0 <= j < d.len() ==> '0' <= #[trigger] d[j] <= '9',
        (exists|k: int|
            0 <= k < LOST_CONNECTION_CODES@.len() && #[trigger] LOST_CONNECTION_CODES@[k]@
                == "ora-"@ + d) || (exists|k: int|
            0 <= k < NETWORK_CODES@.len() && #[trigger] NETWORK_CODES@[k]@ == "ora-"@ + d),
{
    reveal_strlit("ora-");
    if d == "03050"@ {
        reveal_strlit("03050");
        reveal_strlit("ora-03050");
        assert("ora-"@ + d =~= "ora-03050"@);
        assert(LOST_CONNECTION_CODES@[0]@ == "ora-"@ + d);
    } else if d == "03051"@ {
        reveal_strlit("03051");
        reveal_strlit("ora-03051");
        assert("ora-"@ + d =~= "ora-03051"@);
        assert(LOST_CONNECTION_CODES@[1]@ == "ora-"@ + d);
    } else if d == "03052"@ {
        reveal_strlit("03052");
        reveal_strlit("ora-03052");
        assert("ora-"@ + d =~= "ora-03052"@);
        assert(LOST_CONNECTION_CODES@[2]@ == "ora-"@ + d);
    } else if d == "03053"@ {
        reveal_strlit("03053");
        reveal_strlit("ora-03053");
        assert("ora-"@ + d =~= "ora-03053"@);
        assert(LOST_CONNECTION_CODES@[3]@ == "ora-"@ + d);
    } else if d == "03054"@ {
        reveal_strlit("03054");
        reveal_strlit("ora-03054");
        assert("ora-"@ + d =~= "ora-03054"@);
        assert(LOST_CONNECTION_CODES@[4]@ == "ora-"@ + d);
    } else if d == "03055"@ {
        reveal_strlit("03055");
        reveal_strlit("ora-03055");
        assert("ora-"@ + d =~= "ora-03055"@);
        assert(LOST_CONNECTION_CODES@[5]@ == "ora-"@ + d);
    } else if d == "03056"@ {
        reveal_strlit("03056");
        reveal_strlit("ora-03056");
        assert("ora-"@ + d =~= "ora-03056"@);
        assert(LOST_CONNECTION_CODES@[6]@ == "ora-"@ + d);
    } else if d == "03057"@ {
        reveal_strlit("03057");
        reveal_strlit("ora-03057");
        assert("ora-"@ + d =~= "ora-03057"@);
        assert(LOST_CONNECTION_CODES@[7]@ == "ora-"@ + d);
    } else if d == "03058"@ {
        reveal_strlit("03058");
        reveal_strlit("ora-03058");
        assert("ora-"@ + d =~= "ora-03058"@);
        assert(LOST_CONNECTION_CODES@[8]@ == "ora-"@ + d);
    } else if d == "03059"@ {
        reveal_strlit("03059");
        reveal_strlit("ora-03059");
        assert("ora-"@ + d =~= "ora-03059"@);
        assert(LOST_CONNECTION_CODES@[9]@ == "ora-"@ + d);
    }
}

proof fn lemma_lost_digits_2(d: Seq<char>)
    requires
        d == "03113"@ || d == "03114"@ || d == "03135"@ || d == "00051"@ || d == "00054"@ || d == "01073"@ || d == "01090"@ || d == "01092"@ || d == "02049"@ || d == "02396"@,
    ensures
        d.len() == 5,
        forall|j: int| 0 <= j < d.len() ==> '0' <= #[trigger] d[j] <= '9',
        (exists|k: int|
            0 <= k < LOST_CONNECTION_CODES@.len() && #[trigger] LOST_CONNECTION_CODES@[k]@
                == "ora-"@ + d) || (exists|k: int|
            0 <= k < NETWORK_CODES@.len() && #[trigger] NETWORK_CODES@[k]@ == "ora-"@ + d),
{
    reveal_strlit("ora-");
    if d == "03113"@ {
        reveal_strlit("03113");
        reveal_strlit("ora-03113");
        assert("ora-"@ + d =~= "ora-03113"@);
        assert(LOST_CONNECTION_CODES@[10]@ == "ora-"@ + d);
    } else if d == "03114"@ {
        reveal_strlit("03114");
        reveal_strlit("ora-03114");
        assert("ora-"@ + d =~= "ora-03114"@);
        assert(LOST_CONNECTION_CODES@[11]@ == "ora-"@ + d);
    } else if d == "03135"@ {
        reveal_strlit("03135");
        reveal_strlit("ora-03135");
        assert("ora-"@ + d =~= "ora-03135"@);
        assert(LOST_CONNECTION_CODES@[12]@ == "ora-"@ + d);
    } else if d == "00051"@ {
        reveal_strlit("00051");
        reveal_strlit("ora-00051");
        assert("ora-"@ + d =~= "ora-00051"@);
        assert(NETWORK_CODES@[0]@ == "ora-"@ + d);
    } else if d == "00054"@ {
        reveal_strlit("00054");
        reveal_strlit("ora-00054");
        assert("ora-"@ + d =~= "ora-00054"@);
        assert(NETWORK_CODES@[1]@ == "ora-"@ + d);
    } else if d == "01073"@ {
        reveal_strlit("01073");
        reveal_strlit("ora-01073");
        assert("ora-"@ + d =~= "ora-01073"@);
        assert(NETWORK_CODES@[2]@ == "ora-"@ + d);
    } else if d == "01090"@ {
        reveal_strlit("01090");
        reveal_strlit("ora-01090");
        assert("ora-"@ + d =~= "ora-01090"@);
        assert(NETWORK_CODES@[3]@ == "ora-"@ + d);
    } else if d == "01092"@ {
        reveal_strlit("01092");
        reveal_strlit("ora-01092");
        assert("ora-"@ + d =~= "ora-01092"@);
        assert(NETWORK_CODES@[4]@ == "ora-"@ + d);
    } else if d == "02049"@ {
        reveal_strlit("02049");
        reveal_strlit("ora-02049");
        assert("ora-"@ + d =~= "ora-02049"@);
        assert(NETWORK_CODES@[5]@ == "ora-"@ + d);
    } else if d == "02396"@ {
        reveal_strlit("02396");
        reveal_strlit("ora-02396");
        assert("ora-"@ + d =~= "ora-02396"@);
        assert(NETWORK_CODES@[6]@ == "ora-"@ + d);
    }
}

proof fn lemma_lost_digits_3(d: Seq<char>)
    requires
        d == "02399"@ || d == "03136"@ || d == "03156"@ || d == "04021"@ || d == "12153"@ || d == "12154"@ || d == "12170"@ || d == "12203"@ || d == "12502"@ || d == "12504"@,
    ensures
        d.len() == 5,
        forall|j: int| 0 <= j < d.len() ==> '0' <= #[trigger] d[j] <= '9',
        (exists|k: int|
            0 <= k < LOST_CONNECTION_CODES@.len() && #[trigger] LOST_CONNECTION_CODES@[k]@
                == "ora-"@ + d) || (exists|k: int|
            0 <= k < NETWORK_CODES@.len() && #[trigger] NETWORK_CODES@[k]@ == "ora-"@ + d),
{
    reveal_strlit("ora-");
    if d == "02399"@ {
        reveal_strlit("02399");
        reveal_strlit("ora-02399");
        assert("ora-"@ + d =~= "ora-02399"@);
        assert(NETWORK_CODES@[7]@ == "ora-"@ + d);
    } else if d == "03136"@ {
        reveal_strlit("03136");
        reveal_strlit("ora-03136");
        assert("ora-"@ + d =~= "ora-03136"@);
        assert(NETWORK_CODES@[8]@ == "ora-"@ + d);
    } else if d == "03156"@ {
        reveal_strlit("03156");
        reveal_strlit("ora-03156");
        assert("ora-"@ + d =~= "ora-03156"@);
        assert(NETWORK_CODES@[9]@ == "ora-"@ + d);
    } else if d == "04021"@ {
        reveal_strlit("04021");
        reveal_strlit("ora-04021");
        assert("ora-"@ + d =~= "ora-04021"@);
        assert(NETWORK_CODES@[10]@ == "ora-"@ + d);
    } else if d == "12153"@ {
        reveal_strlit("12153");
        reveal_strlit("ora-12153");
        assert("ora-"@ + d =~= "ora-12153"@);
        assert(NETWORK_CODES@[11]@ == "ora-"@ + d);
    } else if d == "12154"@ {
        reveal_strlit("12154");
        reveal_strlit("ora-12154");
        assert("ora-"@ + d =~= "ora-12154"@);
        assert(NETWORK_CODES@[12]@ == "ora-"@ + d);
    } else if d == "12170"@ {
        reveal_strlit("12170");
        reveal_strlit("ora-12170");
        assert("ora-"@ + d =~= "ora-12170"@);
        assert(NETWORK_CODES@[13]@ == "ora-"@ + d);
    } else if d == "12203"@ {
        reveal_strlit("12203");
        reveal_strlit("ora-12203");
        assert("ora-"@ + d =~= "ora-12203"@);
        assert(NETWORK_CODES@[14]@ == "ora-"@ + d);
    } else if d == "12502"@ {
        reveal_strlit("12502");
        reveal_strlit("ora-12502");
        assert("ora-"@ + d =~= "ora-12502"@);
        assert(NETWORK_CODES@[15]@ == "ora-"@ + d);
    } else if d == "12504"@ {
        reveal_strlit("12504");
        reveal_strlit("ora-12504");
        assert("ora-"@ + d =~= "ora-12504"@);
        assert(NETWORK_CODES@[16]@ == "ora-"@ + d);
    }
}

proof fn lemma_lost_digits_4(d: Seq<char>)
    requires
        d == "12505"@ || d == "12514"@ || d == "12518"@ || d == "12521"@ || d == "12523"@ || d == "12527"@ || d == "12528"@ || d == "12529"@ || d == "12535"@ || d == "12537"@,
    ensures
        d.len() == 5,
        forall|j: int| 0 <= j < d.len() ==> '0' <= #[trigger] d[j] <= '9',
        (exists|k: int|
            0 <= k < LOST_CONNECTION_CODES@.len() && #[trigger] LOST_CONNECTION_CODES@[k]@
                == "ora-"@ + d) || (exists|k: int|
            0 <= k < NETWORK_CODES@.len() && #[trigger] NETWORK_CODES@[k]@ == "ora-"@ + d),
{
    reveal_strlit("ora-");
    if d == "12505"@ {
        reveal_strlit("12505");
        reveal_strlit("ora-12505");
        assert("ora-"@ + d =~= "ora-12505"@);
        assert(NETWORK_CODES@[17]@ == "ora-"@ + d);
    } else if d == "12514"@ {
        reveal_strlit("12514");
        reveal_strlit("ora-12514");
        assert("ora-"@ + d =~= "ora-12514"@);
        assert(NETWORK_CODES@[18]@ == "ora-"@ + d);
    } else if d == "12518"@ {
        reveal_strlit("12518");
        reveal_strlit("ora-12518");
        assert("ora-"@ + d =~= "ora-12518"@);
        assert(NETWORK_CODES@[19]@ == "ora-"@ + d);
    } else if d == "12521"@ {
        reveal_strlit("12521");
        reveal_strlit("ora-12521");
        assert("ora-"@ + d =~= "ora-12521"@);
        assert(NETWORK_CODES@[20]@ == "ora-"@ + d);
    } else if d == "12523"@ {
        reveal_strlit("12523");
        reveal_strlit("ora-12523");
        assert("ora-"@ + d =~= "ora-12523"@);
        assert(NETWORK_CODES@[21]@ == "ora-"@ + d);
    } else if d == "12527"@ {
        reveal_strlit("12527");
        reveal_strlit("ora-12527");
        assert("ora-"@ + d =~= "ora-12527"@);
        assert(NETWORK_CODES@[22]@ == "ora-"@ + d);
    } else if d == "12528"@ {
        reveal_strlit("12528");
        reveal_strlit("ora-12528");
        assert("ora-"@ + d =~= "ora-12528"@);
        assert(NETWORK_CODES@[23]@ == "ora-"@ + d);
    } else if d == "12529"@ {
        reveal_strlit("12529");
        reveal_strlit("ora-12529");
        assert("ora-"@ + d =~= "ora-12529"@);
        assert(NETWORK_CODES@[24]@ == "ora-"@ + d);
    } else if d == "12535"@ {
        reveal_strlit("12535");
        reveal_strlit("ora-12535");
        assert("ora-"@ + d =~= "ora-12535"@);
        assert(NETWORK_CODES@[25]@ == "ora-"@ + d);
    } else if d == "12537"@ {
        reveal_strlit("12537");
        reveal_strlit("ora-12537");
        assert("ora-"@ + d =~= "ora-12537"@);
        assert(NETWORK_CODES@[26]@ == "ora-"@ + d);
    }
}

proof fn lemma_lost_digits_5(d: Seq<char>)
    requires
        d == "12545"@ || d == "12564"@ || d == "12606"@ || d == "12608"@ || d == "12609"@ || d == "24401"@ || d == "24457"@ || d == "24459"@ || d == "24496"@ || d == "25228"@,
    ensures
        d.len() == 5,
        forall|j: int| 0 <= j < d.len() ==> '0' <= #[trigger] d[j] <= '9',
        (exists|k: int|
            0 <= k < LOST_CONNECTION_CODES@.len() && #[trigger] LOST_CONNECTION_CODES@[k]@
                == "ora-"@ + d) || (exists|k: int|
            0 <= k < NETWORK_CODES@.len() && #[trigger] NETWORK_CODES@[k]@ == "ora-"@ + d),
{
    reveal_strlit("ora-");
    if d == "12545"@ {
        reveal_strlit("12545");
        reveal_strlit("ora-12545");
        assert("ora-"@ + d =~= "ora-12545"@);
        assert(NETWORK_CODES@[27]@ == "ora-"@ + d);
    } else if d == "12564"@ {
        reveal_strlit("12564");
        reveal_strlit("ora-12564");
        assert("ora-"@ + d =~= "ora-12564"@);
        assert(NETWORK_CODES@[28]@ == "ora-"@ + d);
    } else if d == "12606"@ {
        reveal_strlit("12606");
        reveal_strlit("ora-12606");
        assert("ora-"@ + d =~= "ora-12606"@);
        assert(NETWORK_CODES@[29]@ == "ora-"@ + d);
    } else if d == "12608"@ {
        reveal_strlit("12608");
        reveal_strlit("ora-12608");
        assert("ora-"@ + d =~= "ora-12608"@);
        assert(NETWORK_CODES@[30]@ == "ora-"@ + d);
    } else if d == "12609"@ {
        reveal_strlit("12609");
        reveal_strlit("ora-12609");
        assert("ora-"@ + d =~= "ora-12609"@);
        assert(NETWORK_CODES@[31]@ == "ora-"@ + d);
    } else if d == "24401"@ {
        reveal_strlit("24401");
        reveal_strlit("ora-24401");
        assert("ora-"@ + d =~= "ora-24401"@);
        assert(NETWORK_CODES@[32]@ == "ora-"@ + d);
    } else if d == "24457"@ {
        reveal_strlit("24457");
        reveal_strlit("ora-24457");
        assert("ora-"@ + d =~= "ora-24457"@);
        assert(NETWORK_CODES@[33]@ == "ora-"@ + d);
    } else if d == "24459"@ {
        reveal_strlit("24459");
        reveal_strlit("ora-24459");
        assert("ora-"@ + d =~= "ora-24459"@);
        assert(NETWORK_CODES@[34]@ == "ora-"@ + d);
    } else if d == "24496"@ {
        reveal_strlit("24496");
        reveal_strlit("ora-24496");
        assert("ora-"@ + d =~= "ora-24496"@);
        assert(NETWORK_CODES@[35]@ == "ora-"@ + d);
    } else if d == "25228"@ {
        reveal_strlit("25228");
        reveal_strlit("ora-25228");
        assert("ora-"@ + d =~= "ora-25228"@);
        assert(NETWORK_CODES@[36]@ == "ora-"@ + d);
    }
}

proof fn lemma_lost_digits_6(d: Seq<char>)
    requires
        d == "25403"@ || d == "28511"@ || d == "28545"@ || d == "28546"@ || d == "28547"@ || d == "29276"@ || d == "30006"@,
    ensures
        d.len() == 5,
        forall|j: int| 0 <= j < d.len() ==> '0' <= #[trigger] d[j] <= '9',
        (exists|k: int|
            0 <= k < LOST_CONNECTION_CODES@.len() && #[trigger] LOST_CONNECTION_CODES@[k]@
                == "ora-"@ + d) || (exists|k: int|
            0 <= k < NETWORK_CODES@.len() && #[trigger] NETWORK_CODES@[k]@ == "ora-"@ + d),
{
    reveal_strlit("ora-");
    if d == "25403"@ {
        reveal_strlit("25403");
        reveal_strlit("ora-25403");
        assert("ora-"@ + d =~= "ora-25403"@);
        assert(NETWORK_CODES@[37]@ == "ora-"@ + d);
    } else if d == "28511"@ {
        reveal_strlit("28511");
        reveal_strlit("ora-28511");
        assert("ora-"@ + d =~= "ora-28511"@);
        assert(NETWORK_CODES@[38]@ == "ora-"@ + d);
    } else if d == "28545"@ {
        reveal_strlit("28545");
        reveal_strlit("ora-28545");
        assert("ora-"@ + d =~= "ora-28545"@);
        assert(NETWORK_CODES@[39]@ == "ora-"@ + d);
    } else if d == "28546"@ {
        reveal_strlit("28546");
        reveal_strlit("ora-28546");
        assert("ora-"@ + d =~= "ora-28546"@);
        assert(NETWORK_CODES@[40]@ == "ora-"@ + d);
    } else if d == "28547"@ {
        reveal_strlit("28547");
        reveal_strlit("ora-28547");
        assert("ora-"@ + d =~= "ora-28547"@);
        assert(NETWORK_CODES@[41]@ == "ora-"@ + d);
    } else if d == "29276"@ {
        reveal_strlit("29276");
        reveal_strlit("ora-29276");
        assert("ora-"@ + d =~= "ora-29276"@);
        assert(NETWORK_CODES@[42]@ == "ora-"@ + d);
    } else if d == "30006"@ {
        reveal_strlit("30006");
        reveal_strlit("ora-30006");
        assert("ora-"@ + d =~= "ora-30006"@);
        assert(NETWORK_CODES@[43]@ == "ora-"@ + d);
    }
}

/// A message that names the driver's code of a lost connection or of a timeout
/// may be retried, wherever the code stands and whatever stands round it, unless
/// the message is about parameters.
pub proof fn lemma_driver_codes_are_retryable(before: Seq<char>, d: Seq<char>, after: Seq<char>)
    requires
        lost_driver_digits(d),
        apart(before, after),
        !begins_with(lower(before + "DPI-"@ + d + after), "evaluating params: "@),
        !begins_with(lower(before + "DPI-"@ + d + after), "binding params: "@),
    ensures
        connection_failure(before + "DPI-"@ + d + after),
{
    let text = lower(before + "DPI-"@ + d + after);
    let i = before.len() as int;
    reveal_strlit("DPI-");
    reveal_strlit("dpi-");
    assert(lower("DPI-"@) =~= "dpi-"@);
    reveal_strlit("1010");
    reveal_strlit("dpi-1010");
    if d == "1010"@ {
        assert("dpi-"@ + d =~= "dpi-1010"@);
        assert(LOST_CONNECTION_CODES@[13]@ == "dpi-"@ + d);
    }
    reveal_strlit("1067");
    reveal_strlit("dpi-1067");
    if d == "1067"@ {
        assert("dpi-"@ + d =~= "dpi-1067"@);
        assert(LOST_CONNECTION_CODES@[14]@ == "dpi-"@ + d);
    }
    reveal_strlit("1080");
    reveal_strlit("dpi-1080");
    if d == "1080"@ {
        assert("dpi-"@ + d =~= "dpi-1080"@);
        assert(LOST_CONNECTION_CODES@[15]@ == "dpi-"@ + d);
    }
    lemma_code_stands(before, "DPI-"@, "dpi-"@, d, after);
    assert(lost_code_at(text, i));
    lemma_no_parameter_prefix(text);
}

/// The digits of a rejection: of the syntax and of names, of a constraint, of a
/// privilege, or of a value.
pub open spec fn rejection_digits(d: Seq<char>) -> bool {
    ||| d.len() == 5 && d[0] == '0' && d[1] == '0' && d[2] == '9'
    ||| d == "00001"@
    ||| d == "01031"@
    ||| d == "01400"@
    ||| d == "01407"@
    ||| d == "01722"@
    ||| d == "02290"@
    ||| d == "02291"@
    ||| d == "02292"@
    ||| d == "12899"@
}

/// A statement that the database rejected may not be retried, whatever names and
/// words stand in the message: one about a query or a mutation whose one code is
/// that of a rejection.
pub proof fn lemma_sql_rejections_are_not_retryable(message: Seq<char>, i: int)
    requires
        begins_with(lower(message), "oracle query failed: "@) || begins_with(
            lower(message),
            "oracle execute failed: "@,
        ),
        0 <= i && i + 9 <= message.len(),
        occurs_at(lower(message), "ora-"@, i),
        rejection_digits(lower(message).subrange(i + 4, i + 9)),
        code_at(lower(message), i),
        forall|j: int| #[trigger] code_at(lower(message), j) ==> j == i,
    ensures
        !connection_failure(message),
{
    let text = lower(message);
    let d = text.subrange(i + 4, i + 9);
    assert(text[i + 4] == d[0] && text[i + 5] == d[1] && text[i + 6] == d[2] && text[i + 7] == d[3]
        && text[i + 8] == d[4]);
    reveal_strlit("ora-");
    assert(text.subrange(i, i + 4)[0] == text[i]);
    reveal_strlit("00001");
    reveal_strlit("01031");
    reveal_strlit("01400");
    reveal_strlit("01407");
    reveal_strlit("01722");
    reveal_strlit("02290");
    reveal_strlit("02291");
    reveal_strlit("02292");
    reveal_strlit("12899");
    assert forall|k: int| 0 <= k < LOST_CONNECTION_CODES@.len() implies !whole_code_at(
        text,
        #[trigger] LOST_CONNECTION_CODES@[k]@,
        i,
    ) by {
        reveal_strlit("ora-03050");
        reveal_strlit("ora-03051");
        reveal_strlit("ora-03052");
        reveal_strlit("ora-03053");
        reveal_strlit("ora-03054");
        reveal_strlit("ora-03055");
        reveal_strlit("ora-03056");
        reveal_strlit("ora-03057");
        reveal_strlit("ora-03058");
        reveal_strlit("ora-03059");
        reveal_strlit("ora-03113");
        reveal_strlit("ora-03114");
        reveal_strlit("ora-03135");
        reveal_strlit("dpi-1010");
        reveal_strlit("dpi-1067");
        reveal_strlit("dpi-1080");
        let c = LOST_CONNECTION_CODES@[k]@;
        if occurs_at(text, c, i) {
            let seen = text.subrange(i, i + c.len());
            assert(seen[0] == text[i] && seen[4] == text[i + 4] && seen[5] == text[i + 5]);
            assert(seen[6] == text[i + 6] && seen[7] == text[i + 7]);
            assert(c.len() == 9 ==> seen[8] == text[i + 8]);
        }
    }
    assert forall|k: int| 0 <= k < NETWORK_CODES@.len() implies !whole_code_at(
        text,
        #[trigger] NETWORK_CODES@[k]@,
        i,
    ) by {
        reveal_strlit("ora-00051");
        reveal_strlit("ora-00054");
        reveal_strlit("ora-01073");
        reveal_strlit("ora-01090");
        reveal_strlit("ora-01092");
        reveal_strlit("ora-02049");
        reveal_strlit("ora-02396");
        reveal_strlit("ora-02399");
        reveal_strlit("ora-03136");
        reveal_strlit("ora-03156");
        reveal_strlit("ora-04021");
        reveal_strlit("ora-12153");
        reveal_strlit("ora-12154");
        reveal_strlit("ora-12170");
        reveal_strlit("ora-12203");
        reveal_strlit("ora-12502");
        reveal_strlit("ora-12504");
        reveal_strlit("ora-12505");
        reveal_strlit("ora-12514");
        reveal_strlit("ora-12518");
        reveal_strlit("ora-12521");
        reveal_strlit("ora-12523");
        reveal_strlit("ora-12527");
        reveal_strlit("ora-12528");
        reveal_strlit("ora-12529");
        reveal_strlit("ora-12535");
        reveal_strlit("ora-12537");
        reveal_strlit("ora-12545");
        reveal_strlit("ora-12564");
        reveal_strlit("ora-12606");
        reveal_strlit("ora-12608");
        reveal_strlit("ora-12609");
        reveal_strlit("ora-24401");
        reveal_strlit("ora-24457");
        reveal_strlit("ora-24459");
        reveal_strlit("ora-24496");
        reveal_strlit("ora-25228");
        reveal_strlit("ora-25403");
        reveal_strlit("ora-28511");
        reveal_strlit("ora-28545");
        reveal_strlit("ora-28546");
        reveal_strlit("ora-28547");
        reveal_strlit("ora-29276");
        reveal_strlit("ora-30006");
        let c = NETWORK_CODES@[k]@;
        if occurs_at(text, c, i) {
            let seen = text.subrange(i, i + c.len());
            assert(c.len() == 9);
            assert(seen[4] == text[i + 4] && seen[5] == text[i + 5] && seen[6] == text[i + 6]);
            assert(seen[7] == text[i + 7] && seen[8] == text[i + 8]);
        }
    }
    assert forall|j: int| !lost_code_at(text, j) by {
        if lost_code_at(text, j) {
            assert(code_at(text, j));
        }
    }
    lemma_statement_has_no_connection_prefix(text);
}

proof fn lemma_statement_has_no_connection_prefix(text: Seq<char>)
    requires
        begins_with(text, "oracle query failed: "@) || begins_with(
            text,
            "oracle execute failed: "@,
        ),
    ensures
        !begins_with_any(text, CONNECTION_PREFIXES@),
{
    reveal_strlit("oracle query failed: ");
    reveal_strlit("oracle execute failed: ");
    if begins_with(text, "oracle query failed: "@) {
        assert(text.subrange(0, 21)[7] == text[7]);
    } else {
        assert(text.subrange(0, 23)[7] == text[7]);
    }
    reveal_strlit("oracle connect/login failed");
    reveal_strlit("oracle connect worker task failed");
    reveal_strlit("oracle pool acquire failed");
    reveal_strlit("oracle pool acquire timed out");
    reveal_strlit("oracle call timed out");
    reveal_strlit("oracle set_call_timeout failed");
    assert forall|k: int| 0 <= k < CONNECTION_PREFIXES@.len() implies !begins_with(
        text,
        #[trigger] CONNECTION_PREFIXES@[k]@,
    ) by {
        let c = CONNECTION_PREFIXES@[k]@;
        if begins_with(text, c) {
            assert(text.subrange(0, c.len() as int)[7] == text[7]);
        }
    }
}

/// The text names no code of Oracle or of its driver anywhere.
pub open spec fn without_code(t: Seq<char>) -> bool {
    forall|i: int|
        0 <= i && i + 4 < t.len() && '0' <= #[trigger] t[i + 4] <= '9' ==> !(t[i] == 'o' && t[i + 1]
            == 'r' && t[i + 2] == 'a' && t[i + 3] == '-') && !(t[i] == 'd' && t[i + 1] == 'p' && t[i
            + 2] == 'i' && t[i + 3] == '-')
}

/// A message that names no code may be retried exactly where it speaks of a
/// connection, of a login that failed, of a pool or of a timeout, unless it is
/// about parameters.
pub proof fn lemma_messages_without_code_go_by_their_words(message: Seq<char>)
    requires
        without_code(lower(message)),
        !begins_with(lower(message), "evaluating params: "@),
        !begins_with(lower(message), "binding params: "@),
    ensures
        connection_failure(message) <==> {
            ||| contains_text(lower(message), "connect"@)
            ||| contains_text(lower(message), "login failed"@)
            ||| contains_text(lower(message), "pool"@)
            ||| contains_text(lower(message), "timed out"@)
            ||| contains_text(lower(message), "timeout"@)
            ||| contains_text(lower(message), "broken pipe"@)
            ||| contains_text(lower(message), "connection reset"@)
            ||| contains_text(lower(message), "eof"@)
        },
{
    let t = lower(message);
    reveal_strlit("ora-");
    reveal_strlit("dpi-");
    assert forall|i: int| !code_at(t, i) by {
        if code_at(t, i) {
            let seen = t.subrange(i, i + 4);
            assert(seen[0] == t[i] && seen[1] == t[i + 1] && seen[2] == t[i + 2] && seen[3] == t[i
                + 3]);
            assert('0' <= t[i + 4] <= '9');
        }
    }
    assert(!names_lost_connection(t)) by {
        if names_lost_connection(t) {
            let i = choose|i: int| lost_code_at(t, i);
            assert(code_at(t, i));
        }
    }
    lemma_no_parameter_prefix(t);
    assert(CONNECTION_WORDS@[0]@ == "connect"@);
    assert(CONNECTION_WORDS@[1]@ == "login failed"@);
    assert(CONNECTION_WORDS@[2]@ == "pool"@);
    assert(CONNECTION_WORDS@[3]@ == "timed out"@);
    assert(CONNECTION_WORDS@[4]@ == "timeout"@);
    assert(CONNECTION_WORDS@[5]@ == "broken pipe"@);
    assert(CONNECTION_WORDS@[6]@ == "connection reset"@);
    assert(CONNECTION_WORDS@[7]@ == "eof"@);
    if contains_any(t, CONNECTION_WORDS@) {
        let k = choose|k: int|
            0 <= k < CONNECTION_WORDS@.len() && contains_text(t, #[trigger] CONNECTION_WORDS@[k]@);
        assert(k == 0 || k == 1 || k == 2 || k == 3 || k == 4 || k == 5 || k == 6 || k == 7);
    }
    if begins_with_any(t, CONNECTION_PREFIXES@) {
        let k = choose|k: int|
            0 <= k < CONNECTION_PREFIXES@.len() && begins_with(
                t,
                #[trigger] CONNECTION_PREFIXES@[k]@,
            );
        reveal_strlit("connect");
        reveal_strlit("pool");
        reveal_strlit("timed out");
        reveal_strlit("timeout");
        reveal_strlit("oracle connect/login failed");
        reveal_strlit("oracle connect worker task failed");
        reveal_strlit("oracle pool acquire failed");
        reveal_strlit("oracle pool acquire timed out");
        reveal_strlit("oracle call timed out");
        reveal_strlit("oracle set_call_timeout failed");
        if k == 0 {
            assert(t.subrange(0, 27) == "oracle connect/login failed"@);
            assert forall|j: int| 0 <= j < 7 implies t[7 + j] == "connect"@[j] by {
                assert(t.subrange(0, 27)[7 + j] == t[7 + j]);
            }
            assert(t.subrange(7, 14) =~= "connect"@);
            assert(occurs_at(t, "connect"@, 7));
        }
        if k == 1 {
            assert(t.subrange(0, 33) == "oracle connect worker task failed"@);
            assert forall|j: int| 0 <= j < 7 implies t[7 + j] == "connect"@[j] by {
                assert(t.subrange(0, 33)[7 + j] == t[7 + j]);
            }
            assert(t.subrange(7, 14) =~= "connect"@);
            assert(occurs_at(t, "connect"@, 7));
        }
        if k == 2 {
            assert(t.subrange(0, 26) == "oracle pool acquire failed"@);
            assert forall|j: int| 0 <= j < 4 implies t[7 + j] == "pool"@[j] by {
                assert(t.subrange(0, 26)[7 + j] == t[7 + j]);
            }
            assert(t.subrange(7, 11) =~= "pool"@);
            assert(occurs_at(t, "pool"@, 7));
        }
        if k == 3 {
            assert(t.subrange(0, 29) == "oracle pool acquire timed out"@);
            assert forall|j: int| 0 <= j < 4 implies t[7 + j] == "pool"@[j] by {
                assert(t.subrange(0, 29)[7 + j] == t[7 + j]);
            }
            assert(t.subrange(7, 11) =~= "pool"@);
            assert(occurs_at(t, "pool"@, 7));
        }
        if k == 4 {
            assert(t.subrange(0, 21) == "oracle call timed out"@);
            assert forall|j: int| 0 <= j < 9 implies t[12 + j] == "timed out"@[j] by {
                assert(t.subrange(0, 21)[12 + j] == t[12 + j]);
            }
            assert(t.subrange(12, 21) =~= "timed out"@);
            assert(occurs_at(t, "timed out"@, 12));
        }
        if k == 5 {
            assert(t.subrange(0, 30) == "oracle set_call_timeout failed"@);
            assert forall|j: int| 0 <= j < 7 implies t[16 + j] == "timeout"@[j] by {
                assert(t.subrange(0, 30)[16 + j] == t[16 + j]);
            }
            assert(t.subrange(16, 23) =~= "timeout"@);
            assert(occurs_at(t, "timeout"@, 16));
        }
    }
}

/// Whether a failure may be retried does not go by the case of its letters.
pub proof fn lemma_case_does_not_count(a: Seq<char>, b: Seq<char>)
    requires
        lower(a) == lower(b),
    ensures
        connection_failure(a) == connection_failure(b),
{
}

} // verus!
