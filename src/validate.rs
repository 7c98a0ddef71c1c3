use vstd::prelude::*;

verus! {

/// The body a healthy target answers with: `{"message":"Hello, World!"}`.
pub open spec fn expected_body() -> Seq<u8> {
    seq![
        123u8, 34u8, 109u8, 101u8, 115u8, 115u8, 97u8, 103u8, 101u8, 34u8, 58u8, 34u8, 72u8,
        101u8, 108u8, 108u8, 111u8, 44u8, 32u8, 87u8, 111u8, 114u8, 108u8, 100u8, 33u8, 34u8,
        125u8,
    ]
}

/// A response is an anomaly when its body differs, in any byte, from the expected one.
pub open spec fn is_anomaly(body: Seq<u8>) -> bool {
    body != expected_body()
}

/// The expected body as bytes.
pub fn expected_response() -> (r: Vec<u8>)
    ensures
        r@ == expected_body(),
{
    let r: Vec<u8> = vec![
        123u8, 34u8, 109u8, 101u8, 115u8, 115u8, 97u8, 103u8, 101u8, 34u8, 58u8, 34u8, 72u8,
        101u8, 108u8, 108u8, 111u8, 44u8, 32u8, 87u8, 111u8, 114u8, 108u8, 100u8, 33u8, 34u8,
        125u8,
    ];
    proof {
        assert(r@ =~= expected_body());
    }
    r
}

/// Byte-exact comparison of a response body with the expected payload.
pub fn is_expected_response(body: &[u8]) -> (r: bool)
    ensures
        r == (body@ == expected_body()),
{
    let expected = expected_response();
    if body.len() != expected.len() {
        return false;
    }
    let mut i: usize = 0;
    while i < body.len()
        invariant
            expected@ == expected_body(),
            body@.len() == expected@.len(),
            0 <= i <= body@.len(),
            forall|j: int| 0 <= j < i ==> body@[j] == expected@[j],
        decreases body@.len() - i,
    {
        if body[i] != expected[i] {
            return false;
        }
        i = i + 1;
    }
    proof {
        assert(body@ =~= expected_body());
    }
    true
}

/// Validation depends on the bytes alone: equal bodies get the same verdict, the
/// expected body is never an anomaly, and every other body is one.
pub proof fn lemma_validation_is_exact(a: Seq<u8>, b: Seq<u8>)
    ensures
        a == b ==> is_anomaly(a) == is_anomaly(b),
        !is_anomaly(expected_body()),
        a != expected_body() ==> is_anomaly(a),
{
}

} // verus!
