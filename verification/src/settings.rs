//! The settings reader's parsing half: splitting the raw bytes of a settings
//! file into its lines, in file order.
//!
//! A line ends at each newline byte; a carriage return just before the
//! newline belongs to the terminator and is dropped. Text after the last
//! newline is a final line of its own; a file ending in a newline has no
//! empty line after it.

use vstd::prelude::*;

verus! {

/// `s` without a trailing carriage return.
pub open spec fn strip_cr(s: Seq<u8>) -> Seq<u8> {
    if s.len() > 0 && s[s.len() - 1] == 13 {
        s.drop_last()
    } else {
        s
    }
}

/// The lines of `data` when the text up to the first line terminator still
/// belongs to the unfinished line `cur`.
pub open spec fn split_acc(data: Seq<u8>, cur: Seq<u8>) -> Seq<Seq<u8>>
    decreases data.len(),
{
    if data.len() == 0 {
        if cur.len() == 0 {
            Seq::<Seq<u8>>::empty()
        } else {
            seq![cur]
        }
    } else if data[0] == 10 {
        seq![strip_cr(cur)] + split_acc(data.drop_first(), Seq::<u8>::empty())
    } else {
        split_acc(data.drop_first(), cur.push(data[0]))
    }
}

/// The lines of a settings file's bytes, in file order.
pub open spec fn split_lines_spec(data: Seq<u8>) -> Seq<Seq<u8>> {
    split_acc(data, Seq::<u8>::empty())
}

/// Split a settings file's bytes into its lines, in file order, dropping
/// each line's terminator.
pub fn split_lines(data: &Vec<u8>) -> (r: Vec<Vec<u8>>)
    ensures
        r@.map_values(|l: Vec<u8>| l@) == split_lines_spec(data@),
{
    let n = data.len();
    let mut lines: Vec<Vec<u8>> = Vec::new();
    let mut cur: Vec<u8> = Vec::new();
    let mut i: usize = 0;
    proof {
        assert(data@.skip(0) =~= data@);
        assert(lines@.map_values(|l: Vec<u8>| l@) + split_acc(data@.skip(0), cur@) =~= split_acc(
            data@,
            Seq::<u8>::empty(),
        ));
    }
    while i < n
        invariant
            n == data@.len(),
            i <= n,
            split_lines_spec(data@) == lines@.map_values(|l: Vec<u8>| l@) + split_acc(
                data@.skip(i as int),
                cur@,
            ),
        decreases n - i,
    {
        let ghost prev_lines = lines@;
        let ghost prev_cur = cur@;
        if data[i] == 10 {
            let mut finished = cur;
            cur = Vec::new();
            if finished.len() > 0 && finished[finished.len() - 1] == 13 {
                finished.pop();
            }
            proof {
                assert(finished@ == strip_cr(prev_cur));
            }
            lines.push(finished);
            proof {
                assert(lines@.map_values(|l: Vec<u8>| l@) =~= prev_lines.map_values(
                    |l: Vec<u8>| l@,
                ).push(strip_cr(prev_cur)));
                assert(data@.skip(i as int).drop_first() =~= data@.skip(i as int + 1));
                assert(lines@.map_values(|l: Vec<u8>| l@) + split_acc(
                    data@.skip(i as int + 1),
                    cur@,
                ) =~= prev_lines.map_values(|l: Vec<u8>| l@) + split_acc(
                    data@.skip(i as int),
                    prev_cur,
                ));
            }
        } else {
            cur.push(data[i]);
            proof {
                assert(data@.skip(i as int).drop_first() =~= data@.skip(i as int + 1));
                assert(cur@ == prev_cur.push(data@[i as int]));
                assert(split_acc(data@.skip(i as int), prev_cur) == split_acc(
                    data@.skip(i as int + 1),
                    cur@,
                ));
            }
        }
        i = i + 1;
    }
    proof {
        assert(data@.skip(n as int) =~= Seq::<u8>::empty());
    }
    if cur.len() > 0 {
        let ghost prev_lines = lines@;
        let ghost prev_cur = cur@;
        lines.push(cur);
        proof {
            assert(split_acc(Seq::<u8>::empty(), prev_cur) =~= seq![prev_cur]);
            assert(lines@.map_values(|l: Vec<u8>| l@) =~= prev_lines.map_values(|l: Vec<u8>| l@)
                + split_acc(Seq::<u8>::empty(), prev_cur));
        }
    } else {
        proof {
            assert(split_acc(Seq::<u8>::empty(), cur@) =~= Seq::<Seq<u8>>::empty());
            assert(lines@.map_values(|l: Vec<u8>| l@) + split_acc(Seq::<u8>::empty(), cur@)
                =~= lines@.map_values(|l: Vec<u8>| l@));
        }
    }
    lines
}

} // verus!
