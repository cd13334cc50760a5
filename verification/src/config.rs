use vstd::prelude::*;

verus! {

/// Configuration of the prover: the ordered list of supported block-size
/// classes.  The order is significant — it is the order in which
/// single-block jobs are queried, not a preference weight.
#[derive(Debug)]
pub struct DummyProverConfig {
    pub block_sizes: Vec<usize>,
}

impl DummyProverConfig {
    /// Builds a configuration from an explicit, ordered size list.
    pub fn new(block_sizes: Vec<usize>) -> (r: Self)
        ensures
            r.block_sizes@ == block_sizes@,
    {
        DummyProverConfig { block_sizes }
    }
}

/// An ASCII decimal digit.
pub open spec fn is_digit_byte(b: u8) -> bool {
    48 <= b <= 57
}

/// The value of a digit string, most significant digit first.
pub open spec fn digits_value(s: Seq<u8>) -> int
    decreases s.len(),
{
    if s.len() == 0 {
        0
    } else {
        digits_value(s.drop_last()) * 10 + (s.last() - 48)
    }
}

/// The digits of a field: an optional single leading plus sign is not part
/// of the value, exactly as `usize` parses.
pub open spec fn field_digits(s: Seq<u8>) -> Seq<u8> {
    if s.len() > 0 && s[0] == 43 {
        s.subrange(1, s.len() as int)
    } else {
        s
    }
}

/// The value a field denotes, ignoring its optional leading plus sign.
pub open spec fn field_value(s: Seq<u8>) -> int {
    digits_value(field_digits(s))
}

/// A well-formed size-list field: at least one digit, decimal digits only
/// after the optional leading plus sign, and a value that fits in `usize`.
pub open spec fn valid_field(s: Seq<u8>) -> bool {
    &&& field_digits(s).len() > 0
    &&& (forall|i: int|
        0 <= i < field_digits(s).len() ==> is_digit_byte(#[trigger] field_digits(s)[i]))
    &&& field_value(s) <= usize::MAX
}

/// Parsing a comma-separated size list, from position `i` on, with the
/// digits of the current field and the sizes already read: each comma and
/// the end of the input close the current field, which must be well
/// formed; anything else extends it.
pub open spec fn parse_sizes_from(s: Seq<u8>, i: int, field: Seq<u8>, acc: Seq<usize>) -> Option<
    Seq<usize>,
>
    decreases s.len() - i,
{
    if i < 0 || i >= s.len() {
        if valid_field(field) {
            Some(acc.push(field_value(field) as usize))
        } else {
            None
        }
    } else if s[i] == 44 {
        if valid_field(field) {
            parse_sizes_from(s, i + 1, Seq::empty(), acc.push(field_value(field) as usize))
        } else {
            None
        }
    } else {
        parse_sizes_from(s, i + 1, field.push(s[i]), acc)
    }
}

/// Appending a byte to a field appends it to the field's digits, as long
/// as it is not a plus sign opening an empty field.
proof fn lemma_field_digits_push(field: Seq<u8>, b: u8)
    requires
        field.len() > 0 || b != 43,
    ensures
        field_digits(field.push(b)) =~= field_digits(field).push(b),
{
    if field.len() > 0 && field[0] == 43 {
        assert(field.push(b).subrange(1, field.len() as int + 1) =~= field.subrange(
            1,
            field.len() as int,
        ).push(b));
    }
}

/// What the size list written in `s` denotes, if it is well formed.
pub open spec fn spec_parse_sizes(s: Seq<u8>) -> Option<Seq<usize>> {
    parse_sizes_from(s, 0, Seq::empty(), Seq::empty())
}

/// A field that already went wrong — a non-digit byte among its digits, or
/// a value past `usize` — cannot be repaired by reading further.
proof fn lemma_bad_field(s: Seq<u8>, i: int, field: Seq<u8>, acc: Seq<usize>)
    requires
        0 <= i <= s.len(),
        !(forall|k: int|
            0 <= k < field_digits(field).len() ==> is_digit_byte(#[trigger] field_digits(field)[k]))
            || field_value(field) > usize::MAX,
    ensures
        parse_sizes_from(s, i, field, acc) is None,
    decreases s.len() - i,
{
    let fd = field_digits(field);
    assert(fd.len() > 0);
    if i < s.len() && s[i] != 44 {
        let field2 = field.push(s[i]);
        lemma_field_digits_push(field, s[i]);
        let fd2 = field_digits(field2);
        assert(fd2 =~= fd.push(s[i]));
        assert(fd2.drop_last() =~= fd);
        if forall|k: int| 0 <= k < fd.len() ==> is_digit_byte(#[trigger] fd[k]) {
            assert(digits_value(fd) > usize::MAX);
            assert(digits_value(fd2) == digits_value(fd) * 10 + (s[i] - 48));
            assert(digits_value(fd) * 10 >= digits_value(fd) * 1);
        } else {
            let k = choose|k: int| 0 <= k < fd.len() && !is_digit_byte(#[trigger] fd[k]);
            assert(fd2[k] == fd[k]);
            assert(!is_digit_byte(fd2[k]));
        }
        lemma_bad_field(s, i + 1, field2, acc);
    }
}

/// Parses a comma-separated list of block sizes, as the configuration is
/// written down: decimal sizes, each with an optional leading plus sign as
/// `usize` accepts, separated by single commas.  Returns the sizes exactly
/// when the whole input is well formed.
pub fn parse_block_sizes(raw: &[u8]) -> (r: Option<Vec<usize>>)
    ensures
        match r {
            Some(v) => spec_parse_sizes(raw@) == Some(v@),
            None => spec_parse_sizes(raw@) is None,
        },
{
    let mut acc: Vec<usize> = Vec::new();
    let mut value: usize = 0;
    let mut field_len: usize = 0;
    let mut digit_count: usize = 0;
    let ghost mut field: Seq<u8> = Seq::empty();
    let mut i: usize = 0;
    loop
        invariant
            0 <= i <= raw@.len(),
            field.len() <= i,
            field_len == field.len(),
            digit_count == field_digits(field).len(),
            field_value(field) == value,
            forall|k: int|
                0 <= k < field_digits(field).len() ==> is_digit_byte(
                    #[trigger] field_digits(field)[k],
                ),
            spec_parse_sizes(raw@) == parse_sizes_from(raw@, i as int, field, acc@),
        decreases raw@.len() - i,
    {
        if i == raw.len() {
            if digit_count == 0 {
                return None;
            }
            acc.push(value);
            return Some(acc);
        }
        let b: u8 = raw[i];
        if b == 44 {
            if digit_count == 0 {
                return None;
            }
            acc.push(value);
            value = 0;
            field_len = 0;
            digit_count = 0;
            proof {
                field = Seq::empty();
            }
        } else if 48 <= b && b <= 57 {
            let d: usize = (b - 48) as usize;
            if value > (usize::MAX - d) / 10 {
                // The field's value no longer fits in `usize`; nothing that
                // follows can make it fit again.
                proof {
                    lemma_field_digits_push(field, b);
                    let fd2 = field_digits(field.push(b));
                    assert(fd2 =~= field_digits(field).push(b));
                    assert(fd2.drop_last() =~= field_digits(field));
                    assert(digits_value(fd2) == value * 10 + d);
                    assert(value * 10 + d > usize::MAX) by (nonlinear_arith)
                        requires
                            value > (usize::MAX - d) / 10,
                            d <= 9,
                    ;
                    lemma_bad_field(raw@, i as int + 1, field.push(b), acc@);
                }
                return None;
            }
            proof {
                assert(value * 10 + d <= usize::MAX) by (nonlinear_arith)
                    requires
                        value <= (usize::MAX - d) / 10,
                        d <= 9,
                ;
                lemma_field_digits_push(field, b);
                let fd2 = field_digits(field.push(b));
                assert(fd2 =~= field_digits(field).push(b));
                assert(fd2.drop_last() =~= field_digits(field));
            }
            value = value * 10 + d;
            field_len = field_len + 1;
            digit_count = digit_count + 1;
            proof {
                field = field.push(b);
            }
        } else if b == 43 && field_len == 0 {
            // A plus sign may open a field, as `usize` parses it; it is not
            // part of the value.
            field_len = 1;
            proof {
                field = field.push(b);
                assert(field_digits(field) =~= Seq::<u8>::empty());
            }
        } else {
            // A byte that is neither a digit, a comma, nor a plus sign
            // opening a field spoils the field for good.
            proof {
                lemma_field_digits_push(field, b);
                let fd2 = field_digits(field.push(b));
                assert(fd2 =~= field_digits(field).push(b));
                assert(fd2[field_digits(field).len() as int] == b);
                assert(!is_digit_byte(fd2[field_digits(field).len() as int]));
                lemma_bad_field(raw@, i as int + 1, field.push(b), acc@);
            }
            return None;
        }
        i = i + 1;
    }
}

} // verus!
