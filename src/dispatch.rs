//! The decisions of the proxy around an interception policy: which calls go
//! upstream, which are answered here, and how a batch's answers are put back
//! in the order of its calls.
use vstd::prelude::*;
use itertools::Itertools;
use crate::envelope::{
    batch_to_json, batch_written, decode_responses, reply_status, request_written,
    response_written, responses_spec, responses_to_json, responses_written,
    HttpReply, RpcError, RpcRequest, RpcResponse, HTTP_OK, PARSE_ERROR_CODE,
};
use crate::json::parsed_json;
use crate::json::{print_json, printed_json, JsonValue};

verus! {

/// What an interception policy made of one call.
#[derive(Debug)]
pub enum Intercepted {
    /// No opinion: the call goes upstream.
    Declined,
    /// Answered here with this result.
    Answered(JsonValue),
    /// Refused here with this error.
    Rejected(RpcError),
}

/// The answer given here to a call with id `id` that the policy answered or
/// refused.
pub open spec fn local_response(id: Option<JsonValue>, o: Intercepted) -> RpcResponse {
    match o {
        Intercepted::Answered(v) => RpcResponse { id, error: None, result: Some(v) },
        Intercepted::Rejected(e) => RpcResponse { id, error: Some(e), result: None },
        Intercepted::Declined => RpcResponse { id, error: None, result: None },
    }
}

/// Builds the answer given here to a call that the policy answered or refused.
pub fn answer_locally(id: Option<JsonValue>, o: Intercepted) -> (r: RpcResponse)
    requires
        !(o is Declined),
    ensures
        r == local_response(id, o),
{
    match o {
        Intercepted::Answered(v) => RpcResponse { id, error: None, result: Some(v) },
        Intercepted::Rejected(e) => RpcResponse { id, error: Some(e), result: None },
        Intercepted::Declined => RpcResponse { id, error: None, result: None },
    }
}

/// What to do with a single call.
#[derive(Debug)]
pub enum SingleAction {
    /// Send these bytes upstream and pass its answer on as it is.
    Forward(Vec<u8>),
    /// Answer with this.
    Reply(HttpReply),
}

/// Decides a single call: forwarded as it came where the policy declined it,
/// else answered here with the call's id.
pub fn single_action(req: RpcRequest, o: Intercepted) -> (r: SingleAction)
    ensures
        o is Declined ==> (r matches SingleAction::Forward(b) && exists|j: JsonValue|
            b@ == printed_json(j) && request_written(j, req)),
        !(o is Declined) ==> (r matches SingleAction::Reply(h) && h.status == reply_status(
            local_response(req.id, o),
        ) && exists|j: JsonValue|
            h.body@ == printed_json(j) && response_written(j, local_response(req.id, o))),
{
    match o {
        Intercepted::Declined => {
            let j = req.to_json();
            let b = print_json(&j);
            assert(b@ == printed_json(j));
            SingleAction::Forward(b)
        },
        _ => SingleAction::Reply(answer_locally(req.id, o).into_response()),
    }
}

/// A batch parted by the policy's outcomes: the calls to send upstream with
/// their positions, and the answers given here with theirs.
#[derive(Debug)]
pub struct BatchSplit {
    pub forwarded_idx: Vec<usize>,
    pub forwarded: Vec<RpcRequest>,
    pub intercepted: Vec<(usize, RpcResponse)>,
}

/// Whether `s` parts `reqs` by `os`: each part in the batch's order, the
/// declined calls upstream, every other call answered here.
pub open spec fn split_spec(reqs: Seq<RpcRequest>, os: Seq<Intercepted>, s: BatchSplit) -> bool {
    let fi = s.forwarded_idx@;
    let fw = s.forwarded@;
    let it = s.intercepted@;
    &&& fi.len() == fw.len()
    &&& fi.len() + it.len() == reqs.len()
    &&& forall|k: int|
        0 <= k < fi.len() ==> #[trigger] fi[k] < reqs.len() && os[fi[k] as int] is Declined && fw[k]
            == reqs[fi[k] as int]
    &&& forall|k: int, l: int| 0 <= k < l < fi.len() ==> fi[k] < fi[l]
    &&& forall|i: int|
        0 <= i < reqs.len() && #[trigger] os[i] is Declined ==> exists|k: int|
            0 <= k < fi.len() && fi[k] == i
    &&& forall|k: int|
        0 <= k < it.len() ==> #[trigger] it[k].0 < reqs.len() && !(os[it[k].0 as int] is Declined)
            && it[k].1 == local_response(reqs[it[k].0 as int].id, os[it[k].0 as int])
    &&& forall|k: int, l: int| 0 <= k < l < it.len() ==> it[k].0 < it[l].0
    &&& forall|i: int|
        0 <= i < reqs.len() && !(#[trigger] os[i] is Declined) ==> exists|k: int|
            0 <= k < it.len() && it[k].0 == i
}

/// Parts a batch by the policy's outcomes, one outcome for each call.
pub fn split_batch(reqs: Vec<RpcRequest>, outcomes: Vec<Intercepted>) -> (r: BatchSplit)
    requires
        reqs@.len() == outcomes@.len(),
    ensures
        split_spec(reqs@, outcomes@, r),
{
    let ghost rq = reqs@;
    let ghost os = outcomes@;
    let n = reqs.len();
    let mut reqs = reqs;
    let mut outcomes = outcomes;
    let mut fi: Vec<usize> = Vec::new();
    let mut fw: Vec<RpcRequest> = Vec::new();
    let mut it: Vec<(usize, RpcResponse)> = Vec::new();
    let mut i: usize = 0;
    while i < n
        invariant
            n == rq.len(),
            rq.len() == os.len(),
            i <= n,
            reqs@ == rq.subrange(i as int, n as int),
            outcomes@ == os.subrange(i as int, n as int),
            fi@.len() == fw@.len(),
            fi@.len() + it@.len() == i,
            forall|k: int|
                0 <= k < fi@.len() ==> #[trigger] fi@[k] < i && os[fi@[k] as int] is Declined
                    && fw@[k] == rq[fi@[k] as int],
            forall|k: int, l: int| 0 <= k < l < fi@.len() ==> fi@[k] < fi@[l],
            forall|j: int|
                0 <= j < i && #[trigger] os[j] is Declined ==> exists|k: int|
                    0 <= k < fi@.len() && fi@[k] == j,
            forall|k: int|
                0 <= k < it@.len() ==> #[trigger] it@[k].0 < i && !(os[it@[k].0 as int] is Declined)
                    && it@[k].1 == local_response(rq[it@[k].0 as int].id, os[it@[k].0 as int]),
            forall|k: int, l: int| 0 <= k < l < it@.len() ==> it@[k].0 < it@[l].0,
            forall|j: int|
                0 <= j < i && !(#[trigger] os[j] is Declined) ==> exists|k: int|
                    0 <= k < it@.len() && it@[k].0 == j,
        decreases n - i,
    {
        let q = reqs.remove(0);
        let o = outcomes.remove(0);
        assert(q == rq[i as int] && o == os[i as int]);
        match o {
            Intercepted::Declined => {
                let ghost fi_old = fi@;
                fi.push(i);
                fw.push(q);
                proof {
                    assert forall|j: int| 0 <= j < i + 1 && #[trigger] os[j] is Declined implies exists|k: int|
                        0 <= k < fi@.len() && fi@[k] == j by {
                        if j < i {
                            let k = choose|k: int| 0 <= k < fi_old.len() && fi_old[k] == j;
                            assert(fi@[k] == j);
                        } else {
                            assert(fi@[fi_old.len() as int] == j);
                        }
                    }
                }
            },
            _ => {
                let resp = answer_locally(q.id, o);
                let ghost it_old = it@;
                it.push((i, resp));
                proof {
                    assert forall|j: int| 0 <= j < i + 1 && !(#[trigger] os[j] is Declined) implies exists|k: int|
                        0 <= k < it@.len() && it@[k].0 == j by {
                        if j < i {
                            let k = choose|k: int| 0 <= k < it_old.len() && it_old[k].0 == j;
                            assert(it@[k].0 == j);
                        } else {
                            assert(it@[it_old.len() as int].0 == j);
                        }
                    }
                }
            },
        }
        i = i + 1;
    }
    BatchSplit { forwarded_idx: fi, forwarded: fw, intercepted: it }
}

/// Positions paired with responses, as far as both go.
pub open spec fn zip_spec(idx: Seq<usize>, resps: Seq<RpcResponse>) -> Seq<(usize, RpcResponse)> {
    let n = if idx.len() < resps.len() {
        idx.len()
    } else {
        resps.len()
    };
    Seq::new(n, |k: int| (idx[k], resps[k]))
}

/// Pairs each upstream response with the position of the call it answers, in
/// the order the calls were sent.
pub fn zip_forwarded(idx: Vec<usize>, resps: Vec<RpcResponse>) -> (r: Vec<(usize, RpcResponse)>)
    ensures
        r@ == zip_spec(idx@, resps@),
{
    let ghost rs = resps@;
    let mut resps = resps;
    let mut out: Vec<(usize, RpcResponse)> = Vec::new();
    let mut k: usize = 0;
    while k < idx.len() && resps.len() > 0
        invariant
            k <= idx@.len(),
            k <= rs.len(),
            resps@ == rs.subrange(k as int, rs.len() as int),
            out@.len() == k,
            forall|l: int| 0 <= l < k ==> #[trigger] out@[l] == (idx@[l], rs[l]),
        decreases idx.len() - k,
    {
        let resp = resps.remove(0);
        out.push((idx[k], resp));
        k = k + 1;
    }
    assert(out@ =~= zip_spec(idx@, rs));
    out
}

/// Two runs merged as itertools' `merge_by` does with "first position is
/// smaller": while both have items, the head of `a` goes first if its position
/// is smaller, else the head of `b`; then what is left.
pub open spec fn merge_spec(a: Seq<(usize, RpcResponse)>, b: Seq<(usize, RpcResponse)>) -> Seq<(usize, RpcResponse)>
    decreases a.len() + b.len(),
{
    if a.len() == 0 {
        b
    } else if b.len() == 0 {
        a
    } else if a[0].0 < b[0].0 {
        seq![a[0]] + merge_spec(a.drop_first(), b)
    } else {
        seq![b[0]] + merge_spec(a, b.drop_first())
    }
}

/// Whether `x` comes before `y` in a merge by position.
pub fn index_precedes(x: &(usize, RpcResponse), y: &(usize, RpcResponse)) -> (r: bool)
    ensures
        r == (x.0 < y.0),
{
    x.0 < y.0
}

/// Relies on itertools::Itertools::merge_by over two vector iterators: it
/// yields the head of the first while the predicate holds of the two heads,
/// else the head of the second, and the rest of either once the other is done.
#[verifier::external_body]
fn merge_by_index(a: Vec<(usize, RpcResponse)>, b: Vec<(usize, RpcResponse)>) -> (r: Vec<(usize, RpcResponse)>)
    ensures
        r@ == merge_spec(a@, b@),
{
    a.into_iter().merge_by(b, |x, y| index_precedes(x, y)).collect()
}

/// The responses of pairs, in order.
pub open spec fn answers(ps: Seq<(usize, RpcResponse)>) -> Seq<RpcResponse> {
    Seq::new(ps.len(), |k: int| ps[k].1)
}

/// The answers of a batch, in the order of its calls: the upstream answers to
/// the forwarded calls merged with those given here.
pub open spec fn batch_answers(
    forwarded_idx: Seq<usize>,
    intercepted: Seq<(usize, RpcResponse)>,
    upstream: Seq<RpcResponse>,
) -> Seq<RpcResponse> {
    answers(merge_spec(zip_spec(forwarded_idx, upstream), intercepted))
}

/// The HTTP answer to a batch. Where the upstream call failed, the whole batch
/// is answered with that one error; else with the array of `batch_answers`.
pub fn batch_reply(
    forwarded_idx: Vec<usize>,
    intercepted: Vec<(usize, RpcResponse)>,
    upstream: Result<Vec<RpcResponse>, RpcError>,
) -> (r: HttpReply)
    ensures
        match upstream {
            Err(e) => {
                let resp = RpcResponse { id: None, error: Some(e), result: None };
                &&& r.status == reply_status(resp)
                &&& exists|j: JsonValue| r.body@ == printed_json(j) && response_written(j, resp)
            },
            Ok(v) => {
                &&& r.status == HTTP_OK
                &&& exists|j: JsonValue|
                    r.body@ == printed_json(j) && responses_written(
                        j,
                        batch_answers(forwarded_idx@, intercepted@, v@),
                    )
            },
        },
{
    match upstream {
        Err(e) => RpcResponse::from(e).into_response(),
        Ok(v) => {
            let zipped = zip_forwarded(forwarded_idx, v);
            let merged = merge_by_index(zipped, intercepted);
            let ghost m = merged@;
            let mut rest = merged;
            let mut out: Vec<RpcResponse> = Vec::new();
            while rest.len() > 0
                invariant
                    m == m.subrange(0, out@.len() as int) + rest@,
                    out@.len() <= m.len(),
                    forall|k: int| 0 <= k < out@.len() ==> #[trigger] out@[k] == m[k].1,
                decreases rest.len(),
            {
                let (_, resp) = rest.remove(0);
                proof {
                    assert(m.subrange(0, out@.len() as int + 1) + rest@ =~= m);
                }
                out.push(resp);
            }
            assert(out@ =~= answers(m));
            let j = responses_to_json(out);
            let body = print_json(&j);
            assert(body@ == printed_json(j));
            HttpReply { status: HTTP_OK, body }
        },
    }
}

/// Whether the positions of `s` strictly increase.
pub open spec fn ascending(s: Seq<(usize, RpcResponse)>) -> bool {
    forall|k: int, l: int| 0 <= k < l < s.len() ==> s[k].0 < s[l].0
}

/// A merge holds the items of both runs and nothing else.
pub proof fn lemma_merge_items(a: Seq<(usize, RpcResponse)>, b: Seq<(usize, RpcResponse)>)
    ensures
        merge_spec(a, b).len() == a.len() + b.len(),
        forall|x: (usize, RpcResponse)| #[trigger] merge_spec(a, b).contains(x) ==> a.contains(x) || b.contains(x),
    decreases a.len() + b.len(),
{
    if a.len() == 0 || b.len() == 0 {
    } else if a[0].0 < b[0].0 {
        lemma_merge_items(a.drop_first(), b);
        let m = merge_spec(a, b);
        let rest = merge_spec(a.drop_first(), b);
        assert forall|x: (usize, RpcResponse)| #[trigger] m.contains(x) implies a.contains(x) || b.contains(x) by {
            let p = choose|p: int| 0 <= p < m.len() && m[p] == x;
            if p == 0 {
                assert(a[0] == x);
            } else {
                assert(rest[p - 1] == x);
                assert(rest.contains(x));
                if a.drop_first().contains(x) {
                    let q = choose|q: int| 0 <= q < a.drop_first().len() && a.drop_first()[q] == x;
                    assert(a[q + 1] == x);
                }
            }
        }
    } else {
        lemma_merge_items(a, b.drop_first());
        let m = merge_spec(a, b);
        let rest = merge_spec(a, b.drop_first());
        assert forall|x: (usize, RpcResponse)| #[trigger] m.contains(x) implies a.contains(x) || b.contains(x) by {
            let p = choose|p: int| 0 <= p < m.len() && m[p] == x;
            if p == 0 {
                assert(b[0] == x);
            } else {
                assert(rest[p - 1] == x);
                assert(rest.contains(x));
                if b.drop_first().contains(x) {
                    let q = choose|q: int| 0 <= q < b.drop_first().len() && b.drop_first()[q] == x;
                    assert(b[q + 1] == x);
                }
            }
        }
    }
}

/// Merging two ascending runs whose positions differ gives an ascending run.
pub proof fn lemma_merge_ascending(a: Seq<(usize, RpcResponse)>, b: Seq<(usize, RpcResponse)>)
    requires
        ascending(a),
        ascending(b),
        forall|k: int, l: int| 0 <= k < a.len() && 0 <= l < b.len() ==> a[k].0 != b[l].0,
    ensures
        ascending(merge_spec(a, b)),
    decreases a.len() + b.len(),
{
    if a.len() == 0 || b.len() == 0 {
    } else {
        let m = merge_spec(a, b);
        let h = m[0];
        let (a2, b2) = if a[0].0 < b[0].0 {
            (a.drop_first(), b)
        } else {
            (a, b.drop_first())
        };
        assert(m == seq![h] + merge_spec(a2, b2));
        lemma_merge_ascending(a2, b2);
        lemma_merge_items(a2, b2);
        let rest = merge_spec(a2, b2);
        assert forall|l: int| 0 <= l < rest.len() implies h.0 < #[trigger] rest[l].0 by {
            assert(rest.contains(rest[l]));
            if a2.contains(rest[l]) {
                let q = choose|q: int| 0 <= q < a2.len() && a2[q] == rest[l];
                if a[0].0 < b[0].0 {
                    assert(a[q + 1] == rest[l]);
                } else {
                    assert(a[0].0 != b[0].0);
                    assert(q == 0 || a[0].0 < a[q].0);
                }
            } else {
                let q = choose|q: int| 0 <= q < b2.len() && b2[q] == rest[l];
                if a[0].0 < b[0].0 {
                    assert(q == 0 || b[0].0 < b[q].0);
                } else {
                    assert(b[q + 1] == rest[l]);
                }
            }
        }
        assert forall|k: int, l: int| 0 <= k < l < m.len() implies m[k].0 < m[l].0 by {
            assert(m[l] == rest[l - 1]);
            if k > 0 {
                assert(m[k] == rest[k - 1]);
            }
        }
    }
}

proof fn lemma_ascending_from_below(m: Seq<(usize, RpcResponse)>, i: int)
    requires
        ascending(m),
        0 <= i < m.len(),
    ensures
        m[i].0 >= i,
    decreases i,
{
    if i > 0 {
        lemma_ascending_from_below(m, i - 1);
    }
}

proof fn lemma_ascending_from_above(m: Seq<(usize, RpcResponse)>, i: int)
    requires
        ascending(m),
        0 <= i < m.len(),
        forall|k: int| 0 <= k < m.len() ==> #[trigger] m[k].0 < m.len(),
    ensures
        m[i].0 <= i,
    decreases m.len() - i,
{
    if i < m.len() - 1 {
        lemma_ascending_from_above(m, i + 1);
    }
}

/// Whether `out` answers the calls `reqs` in their order: the answer to a call
/// the policy declined is the upstream answer at the place the call was sent
/// in, and any other is the one given here with the call's id.
pub open spec fn answered_in_order(
    reqs: Seq<RpcRequest>,
    os: Seq<Intercepted>,
    forwarded_idx: Seq<usize>,
    upstream: Seq<RpcResponse>,
    out: Seq<RpcResponse>,
) -> bool {
    &&& out.len() == reqs.len()
    &&& forall|i: int|
        0 <= i < reqs.len() && #[trigger] os[i] is Declined ==> exists|k: int|
            0 <= k < forwarded_idx.len() && forwarded_idx[k] == i && out[i] == upstream[k]
    &&& forall|i: int|
        0 <= i < reqs.len() && !(#[trigger] os[i] is Declined) ==> out[i] == local_response(
            reqs[i].id,
            os[i],
        )
}

/// A batch of calls, some answered here and the rest upstream with one answer
/// each, is answered with as many responses as calls, response `i` answering
/// call `i`, whatever the policy decided of each.
pub proof fn lemma_batch_answers_in_order(
    reqs: Seq<RpcRequest>,
    os: Seq<Intercepted>,
    s: BatchSplit,
    upstream: Seq<RpcResponse>,
)
    requires
        reqs.len() == os.len(),
        split_spec(reqs, os, s),
        upstream.len() == s.forwarded_idx@.len(),
    ensures
        answered_in_order(
            reqs,
            os,
            s.forwarded_idx@,
            upstream,
            batch_answers(s.forwarded_idx@, s.intercepted@, upstream),
        ),
{
    let fi = s.forwarded_idx@;
    let it = s.intercepted@;
    let a = zip_spec(fi, upstream);
    let m = merge_spec(a, it);
    let n = reqs.len();
    assert(ascending(a));
    assert forall|k: int, l: int| 0 <= k < a.len() && 0 <= l < it.len() implies a[k].0 != it[l].0 by {
        assert(os[fi[k] as int] is Declined);
        assert(!(os[it[l].0 as int] is Declined));
    }
    lemma_merge_ascending(a, it);
    lemma_merge_items(a, it);
    assert forall|k: int| 0 <= k < m.len() implies #[trigger] m[k].0 < m.len() by {
        assert(m.contains(m[k]));
        if a.contains(m[k]) {
            let q = choose|q: int| 0 <= q < a.len() && a[q] == m[k];
            assert(fi[q] < n);
        } else {
            let q = choose|q: int| 0 <= q < it.len() && it[q] == m[k];
            assert(it[q].0 < n);
        }
    }
    assert forall|i: int| 0 <= i < n implies #[trigger] m[i].0 == i && (a.contains(m[i]) || it.contains(m[i])) by {
        lemma_ascending_from_below(m, i);
        lemma_ascending_from_above(m, i);
        assert(m.contains(m[i]));
    }
    let out = batch_answers(fi, it, upstream);
    assert forall|i: int| 0 <= i < n && #[trigger] os[i] is Declined implies exists|k: int|
        0 <= k < fi.len() && fi[k] == i && out[i] == upstream[k] by {
        assert(m[i].0 == i);
        if it.contains(m[i]) {
            let q = choose|q: int| 0 <= q < it.len() && it[q] == m[i];
            assert(!(os[it[q].0 as int] is Declined));
        } else {
            let q = choose|q: int| 0 <= q < a.len() && a[q] == m[i];
            assert(fi[q] == i && out[i] == upstream[q]);
        }
    }
    assert forall|i: int| 0 <= i < n && !(#[trigger] os[i] is Declined) implies out[i] == local_response(
        reqs[i].id,
        os[i],
    ) by {
        assert(m[i].0 == i);
        if a.contains(m[i]) {
            let q = choose|q: int| 0 <= q < a.len() && a[q] == m[i];
            assert(os[fi[q] as int] is Declined);
        } else {
            let q = choose|q: int| 0 <= q < it.len() && it[q] == m[i];
            assert(it[q].0 == i);
        }
    }
}

/// The body sent upstream for the forwarded calls of a batch: one array, in
/// the batch's order.
pub fn forward_body(forwarded: Vec<RpcRequest>) -> (r: Vec<u8>)
    ensures
        exists|j: JsonValue| r@ == printed_json(j) && batch_written(j, forwarded@),
{
    let j = batch_to_json(forwarded);
    let b = print_json(&j);
    assert(b@ == printed_json(j));
    b
}

/// The upstream answers to a forwarded batch, from the body it answered with:
/// a failed call stays that error, and a body that is not an array of
/// responses is a parse error.
pub fn upstream_answers(body: Result<Vec<u8>, RpcError>) -> (r: Result<Vec<RpcResponse>, RpcError>)
    ensures
        match body {
            Err(e) => r == Err::<Vec<RpcResponse>, RpcError>(e),
            Ok(b) => match parsed_json(b@) {
                Some(JsonValue::Array(items)) => match responses_spec(items@) {
                    Ok(s) => r is Ok && r->Ok_0@ == s,
                    Err(_) => r matches Err(e) && e.code == PARSE_ERROR_CODE,
                },
                _ => r matches Err(e) && e.code == PARSE_ERROR_CODE,
            },
        },
{
    match body {
        Err(e) => Err(e),
        Ok(b) => match decode_responses(b.as_slice()) {
            Ok(v) => Ok(v),
            Err(e) => Err(RpcError::from_decode(e)),
        },
    }
}

} // verus!
