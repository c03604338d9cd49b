//! Command execution: the streaming read loop over a channel's output and
//! the mapping from the remote exit status to the process outcome.
//!
//! The channel I/O itself happens outside this crate; the loop's bookkeeping
//! is verified here over the chunks the channel yields.

use vstd::prelude::*;

verus! {

/// The bytes a command produced: its output chunks, concatenated in order.
pub open spec fn concat_chunks(chunks: Seq<Seq<u8>>) -> Seq<u8>
    decreases chunks.len(),
{
    if chunks.len() == 0 {
        Seq::<u8>::empty()
    } else {
        chunks[0] + concat_chunks(chunks.drop_first())
    }
}

pub proof fn lemma_concat_chunks_push(chunks: Seq<Seq<u8>>, c: Seq<u8>)
    ensures
        concat_chunks(chunks.push(c)) == concat_chunks(chunks) + c,
    decreases chunks.len(),
{
    if chunks.len() == 0 {
        assert(chunks.push(c)[0] == c);
        assert(chunks.push(c).drop_first() =~= Seq::<Seq<u8>>::empty());
        assert(concat_chunks(Seq::<Seq<u8>>::empty()) =~= Seq::<u8>::empty());
        assert(c + Seq::<u8>::empty() =~= c);
        assert(Seq::<u8>::empty() + c =~= c);
        assert(concat_chunks(chunks.push(c)) =~= concat_chunks(chunks) + c);
    } else {
        assert(chunks.push(c)[0] == chunks[0]);
        assert(chunks.push(c).drop_first() =~= chunks.drop_first().push(c));
        lemma_concat_chunks_push(chunks.drop_first(), c);
        assert(chunks[0] + (concat_chunks(chunks.drop_first()) + c) =~= (chunks[0]
            + concat_chunks(chunks.drop_first())) + c);
        assert(concat_chunks(chunks.push(c)) =~= concat_chunks(chunks) + c);
    }
}

/// The exit status the remote side is taken to have reported: the value it
/// gave, or the sentinel -1 when none could be read.
pub fn effective_status(reported: Option<i32>) -> (s: i32)
    ensures
        s == (match reported {
            Some(v) => v,
            None => -1i32,
        }),
{
    match reported {
        Some(v) => v,
        None => -1,
    }
}

/// A remote exit status of exactly 0 is success; any other value is a
/// failure carrying that exact value, to be forwarded as the process's own
/// exit code.
pub fn exit_outcome(status: i32) -> (r: Result<(), i32>)
    ensures
        status == 0 <==> r is Ok,
        r is Err ==> r->Err_0 == status,
{
    if status == 0 {
        Ok(())
    } else {
        Err(status)
    }
}

/// Outcome of a whole command run, from the status the channel reported:
/// success exactly when the remote process exited 0; otherwise the failure
/// carries the effective (sentinel-filled) status.
pub fn command_result(reported: Option<i32>) -> (r: Result<(), i32>)
    ensures
        r is Ok <==> reported == Some(0i32),
        r is Err ==> r->Err_0 == (match reported {
            Some(v) => v,
            None => -1i32,
        }),
{
    let status = effective_status(reported);
    exit_outcome(status)
}

/// The streaming loop's accounting: the bytes handed to standard output are
/// exactly the channel's chunks, in order, whole.
pub fn collect_output(chunks: &Vec<Vec<u8>>) -> (out: Vec<u8>)
    ensures
        out@ == concat_chunks(chunks.deep_view()),
{
    let mut out: Vec<u8> = Vec::new();
    let mut i: usize = 0;
    proof {
        assert(chunks.deep_view().take(0) =~= Seq::<Seq<u8>>::empty());
    }
    while i < chunks.len()
        invariant
            i <= chunks.len(),
            out@ == concat_chunks(chunks.deep_view().take(i as int)),
        decreases chunks.len() - i,
    {
        let chunk = &chunks[i];
        let mut j: usize = 0;
        while j < chunk.len()
            invariant
                j <= chunk.len(),
                chunk@ == chunks@[i as int]@,
                i < chunks.len(),
                out@ == concat_chunks(chunks.deep_view().take(i as int))
                    + chunk@.take(j as int),
            decreases chunk.len() - j,
        {
            out.push(chunk[j]);
            proof {
                assert(chunk@.take(j + 1) =~= chunk@.take(j as int).push(chunk@[j as int]));
                assert(out@ == concat_chunks(chunks.deep_view().take(i as int))
                    + chunk@.take(j + 1));
            }
            j = j + 1;
        }
        proof {
            let dv = chunks.deep_view();
            assert(chunk@.take(chunk@.len() as int) =~= dv[i as int]);
            lemma_concat_chunks_push(dv.take(i as int), dv[i as int]);
            assert(dv.take(i + 1) =~= dv.take(i as int).push(dv[i as int]));
        }
        i = i + 1;
    }
    proof {
        assert(chunks.deep_view().take(chunks@.len() as int) =~= chunks.deep_view());
    }
    out
}

} // verus!
