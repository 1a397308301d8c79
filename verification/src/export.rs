//! CSV exporter: renders output rows as comma-separated text under the
//! fixed header `pid,path,hash_id`. Only the rendering lives here; the
//! single fatal error class of the pipeline — failing to write the file —
//! belongs to the embedding program.
use vstd::prelude::*;
use vstd::string::StringExecFns;

use crate::extract::OutputRow;

verus! {

/// The decimal digit character for one digit value.
pub open spec fn spec_digit(d: int) -> char {
    if d == 0 {
        '0'
    } else if d == 1 {
        '1'
    } else if d == 2 {
        '2'
    } else if d == 3 {
        '3'
    } else if d == 4 {
        '4'
    } else if d == 5 {
        '5'
    } else if d == 6 {
        '6'
    } else if d == 7 {
        '7'
    } else if d == 8 {
        '8'
    } else {
        '9'
    }
}

/// The decimal rendering of a number, most significant digit first, no
/// leading zeros (a single `'0'` for zero).
pub open spec fn spec_dec(n: nat) -> Seq<char>
    decreases n,
{
    if n < 10 {
        seq![spec_digit(n as int)]
    } else {
        spec_dec(n / 10) + seq![spec_digit((n % 10) as int)]
    }
}

fn digit_str(d: u64) -> (s: &'static str)
    requires
        d < 10,
    ensures
        s@ == seq![spec_digit(d as int)],
{
    if d == 0 {
        proof {
            reveal_strlit("0");
            assert("0"@ =~= seq![spec_digit(0)]);
        }
        "0"
    } else if d == 1 {
        proof {
            reveal_strlit("1");
            assert("1"@ =~= seq![spec_digit(1)]);
        }
        "1"
    } else if d == 2 {
        proof {
            reveal_strlit("2");
            assert("2"@ =~= seq![spec_digit(2)]);
        }
        "2"
    } else if d == 3 {
        proof {
            reveal_strlit("3");
            assert("3"@ =~= seq![spec_digit(3)]);
        }
        "3"
    } else if d == 4 {
        proof {
            reveal_strlit("4");
            assert("4"@ =~= seq![spec_digit(4)]);
        }
        "4"
    } else if d == 5 {
        proof {
            reveal_strlit("5");
            assert("5"@ =~= seq![spec_digit(5)]);
        }
        "5"
    } else if d == 6 {
        proof {
            reveal_strlit("6");
            assert("6"@ =~= seq![spec_digit(6)]);
        }
        "6"
    } else if d == 7 {
        proof {
            reveal_strlit("7");
            assert("7"@ =~= seq![spec_digit(7)]);
        }
        "7"
    } else if d == 8 {
        proof {
            reveal_strlit("8");
            assert("8"@ =~= seq![spec_digit(8)]);
        }
        "8"
    } else {
        proof {
            reveal_strlit("9");
            assert("9"@ =~= seq![spec_digit(9)]);
        }
        "9"
    }
}

/// Renders a number in decimal.
pub fn u64_to_dec(n: u64) -> (r: String)
    ensures
        r@ == spec_dec(n as nat),
    decreases n,
{
    if n < 10 {
        let s = digit_str(n);
        s.to_owned()
    } else {
        let mut prefix = u64_to_dec(n / 10);
        prefix.append(digit_str(n % 10));
        prefix
    }
}

/// One CSV data line: the three row fields in fixed column order,
/// terminated by a newline.
pub open spec fn spec_csv_row(row: OutputRow) -> Seq<char> {
    spec_dec(row.pid as nat) + seq![','] + row.path@ + seq![','] + spec_dec(row.hash_id as nat)
        + seq!['\n']
}

/// The data lines of a row sequence, in order.
pub open spec fn spec_csv_body(rows: Seq<OutputRow>) -> Seq<char>
    decreases rows.len(),
{
    if rows.len() == 0 {
        Seq::empty()
    } else {
        spec_csv_row(rows[0]) + spec_csv_body(rows.drop_first())
    }
}

/// A whole CSV file: the fixed header line, then one line per row.
pub open spec fn spec_csv(rows: Seq<OutputRow>) -> Seq<char> {
    "pid,path,hash_id"@ + seq!['\n'] + spec_csv_body(rows)
}

fn csv_row_string(row: &OutputRow) -> (r: String)
    ensures
        r@ == spec_csv_row(*row),
{
    proof {
        reveal_strlit(",");
        reveal_strlit("\n");
        assert(","@ =~= seq![',']);
        assert("\n"@ =~= seq!['\n']);
    }
    let mut line = u64_to_dec(row.pid);
    line.append(",");
    line.append(row.path.as_str());
    line.append(",");
    let hash = u64_to_dec(row.hash_id);
    line.append(hash.as_str());
    line.append("\n");
    line
}

/// Renders the rows as one CSV file under the fixed three-column header.
pub fn render_csv(rows: &Vec<OutputRow>) -> (r: String)
    ensures
        r@ == spec_csv(rows@),
{
    proof {
        reveal_strlit("\n");
        assert("\n"@ =~= seq!['\n']);
    }
    let mut s = String::from_str("pid,path,hash_id");
    s.append("\n");
    let mut i: usize = 0;
    proof {
        assert(rows@.skip(0) =~= rows@);
    }
    while i < rows.len()
        invariant
            i <= rows@.len(),
            spec_csv(rows@) == s@ + spec_csv_body(rows@.skip(i as int)),
        decreases rows@.len() - i,
    {
        let ghost before = rows@.skip(i as int);
        proof {
            assert(before.drop_first() =~= rows@.skip(i + 1));
            assert(before[0] == rows@[i as int]);
        }
        let line = csv_row_string(&rows[i]);
        s.append(line.as_str());
        i += 1;
    }
    proof {
        assert(rows@.skip(rows@.len() as int) =~= Seq::<OutputRow>::empty());
        assert(s@ + Seq::<char>::empty() == s@);
    }
    s
}

/// How many times a character occurs in a text.
pub open spec fn spec_count_char(s: Seq<char>, c: char) -> nat
    decreases s.len(),
{
    if s.len() == 0 {
        0
    } else {
        (if s[0] == c {
            1nat
        } else {
            0nat
        }) + spec_count_char(s.drop_first(), c)
    }
}

proof fn lemma_count_char_single(x: char, c: char)
    ensures
        spec_count_char(seq![x], c) == if x == c {
            1nat
        } else {
            0nat
        },
{
    assert(seq![x].drop_first() =~= Seq::<char>::empty());
    assert(spec_count_char(Seq::<char>::empty(), c) == 0);
    assert(seq![x][0] == x);
}

proof fn lemma_count_char_concat(a: Seq<char>, b: Seq<char>, c: char)
    ensures
        spec_count_char(a + b, c) == spec_count_char(a, c) + spec_count_char(b, c),
    decreases a.len(),
{
    if a.len() == 0 {
        assert(a + b =~= b);
    } else {
        assert((a + b).drop_first() =~= a.drop_first() + b);
        lemma_count_char_concat(a.drop_first(), b, c);
    }
}

proof fn lemma_count_char_absent(s: Seq<char>, c: char)
    requires
        forall|i: int| 0 <= i < s.len() ==> s[i] != c,
    ensures
        spec_count_char(s, c) == 0,
    decreases s.len(),
{
    if s.len() > 0 {
        lemma_count_char_absent(s.drop_first(), c);
    }
}

proof fn lemma_dec_no_newline(n: nat)
    ensures
        spec_count_char(spec_dec(n), '\n') == 0,
    decreases n,
{
    if n < 10 {
        lemma_count_char_single(spec_digit(n as int), '\n');
    } else {
        lemma_dec_no_newline(n / 10);
        lemma_count_char_single(spec_digit((n % 10) as int), '\n');
        lemma_count_char_concat(spec_dec(n / 10), seq![spec_digit((n % 10) as int)], '\n');
    }
}

proof fn lemma_csv_row_one_newline(row: OutputRow)
    requires
        forall|i: int| 0 <= i < row.path@.len() ==> row.path@[i] != '\n',
    ensures
        spec_count_char(spec_csv_row(row), '\n') == 1,
{
    let pid = spec_dec(row.pid as nat);
    let hash = spec_dec(row.hash_id as nat);
    lemma_dec_no_newline(row.pid as nat);
    lemma_dec_no_newline(row.hash_id as nat);
    lemma_count_char_absent(row.path@, '\n');
    lemma_count_char_single(',', '\n');
    lemma_count_char_single('\n', '\n');
    lemma_count_char_concat(pid, seq![','], '\n');
    lemma_count_char_concat(pid + seq![','], row.path@, '\n');
    lemma_count_char_concat(pid + seq![','] + row.path@, seq![','], '\n');
    lemma_count_char_concat(pid + seq![','] + row.path@ + seq![','], hash, '\n');
    lemma_count_char_concat(pid + seq![','] + row.path@ + seq![','] + hash, seq!['\n'], '\n');
}

/// The shape of the CSV output, for rows whose paths hold no newline:
/// the file starts with exactly the header line `pid,path,hash_id`, and
/// the newline count — one per line — is one more than the row count, so
/// the data line count equals the number of surviving rows.
pub proof fn lemma_csv_shape(rows: Seq<OutputRow>)
    requires
        forall|k: int, i: int|
            0 <= k < rows.len() && 0 <= i < rows[k].path@.len() ==> (#[trigger] rows[k].path@[i])
                != '\n',
    ensures
        spec_csv(rows).take("pid,path,hash_id"@.len() as int) == "pid,path,hash_id"@,
        spec_csv(rows)["pid,path,hash_id"@.len() as int] == '\n',
        spec_count_char(spec_csv(rows), '\n') == 1 + rows.len(),
    decreases rows.len(),
{
    let header = "pid,path,hash_id"@;
    assert((header + seq!['\n'] + spec_csv_body(rows)).take(header.len() as int) =~= header);
    reveal_strlit("pid,path,hash_id");
    assert forall|i: int| 0 <= i < header.len() implies header[i] != '\n' by {
        assert(header =~= seq![
            'p',
            'i',
            'd',
            ',',
            'p',
            'a',
            't',
            'h',
            ',',
            'h',
            'a',
            's',
            'h',
            '_',
            'i',
            'd',
        ]);
    }
    lemma_count_char_absent(header, '\n');
    lemma_count_char_single('\n', '\n');
    lemma_count_char_concat(header, seq!['\n'], '\n');
    lemma_count_char_concat(header + seq!['\n'], spec_csv_body(rows), '\n');
    lemma_csv_body_newlines(rows);
}

proof fn lemma_csv_body_newlines(rows: Seq<OutputRow>)
    requires
        forall|k: int, i: int|
            0 <= k < rows.len() && 0 <= i < rows[k].path@.len() ==> (#[trigger] rows[k].path@[i])
                != '\n',
    ensures
        spec_count_char(spec_csv_body(rows), '\n') == rows.len(),
    decreases rows.len(),
{
    if rows.len() > 0 {
        assert(forall|i: int| 0 <= i < rows[0].path@.len() ==> rows[0].path@[i] != '\n');
        lemma_csv_row_one_newline(rows[0]);
        lemma_csv_body_newlines(rows.drop_first());
        lemma_count_char_concat(spec_csv_row(rows[0]), spec_csv_body(rows.drop_first()), '\n');
    }
}

} // verus!
