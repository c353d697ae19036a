use vstd::prelude::*;

verus! {

/// A character of `[A-Za-z0-9]`.
pub open spec fn is_alphanumeric(c: char) -> bool {
    ('A' <= c && c <= 'Z') || ('a' <= c && c <= 'z') || ('0' <= c && c <= '9')
}

/// `s` is made of exactly `n` characters of `[A-Za-z0-9]`.
pub open spec fn is_alphanumeric_of_len(s: Seq<char>, n: nat) -> bool {
    &&& s.len() == n
    &&& forall|i: int| 0 <= i < s.len() ==> #[trigger] is_alphanumeric(s[i])
}

/// An interface name: eight characters of `[A-Za-z0-9]`.
pub open spec fn is_interface_name(s: Seq<char>) -> bool {
    is_alphanumeric_of_len(s, 8)
}

/// A namespace name: `ns-` followed by eight characters of `[A-Za-z0-9]`.
pub open spec fn is_netns_name(s: Seq<char>) -> bool {
    &&& s.len() == 11
    &&& s.subrange(0, 3) == seq!['n', 's', '-']
    &&& is_alphanumeric_of_len(s.subrange(3, 11), 8)
}

/// A netfilter table name: `table` followed by ten characters of `[A-Za-z0-9]`.
pub open spec fn is_nft_table_name(s: Seq<char>) -> bool {
    &&& s.len() == 15
    &&& s.subrange(0, 5) == seq!['t', 'a', 'b', 'l', 'e']
    &&& is_alphanumeric_of_len(s.subrange(5, 15), 10)
}

/// Relies on `String::push`: the character is appended at the end.
#[verifier::external_body]
fn push_char(s: &mut String, c: char)
    ensures
        final(s)@ == old(s)@.push(c),
{
    s.push(c)
}

/// Relies on rand's `Alphanumeric` distribution over the thread-local
/// generator: each sample is one byte of `A-Z`, `a-z` or `0-9`.
#[verifier::external_body]
fn random_alphanumeric() -> (c: char)
    ensures
        is_alphanumeric(c),
{
    char::from(rand::Rng::sample(&mut rand::thread_rng(), rand::distributions::Alphanumeric))
}

/// Appends `n` random characters of `[A-Za-z0-9]` to `s`.
fn push_random_alphanumerics(s: &mut String, n: usize)
    ensures
        final(s)@.len() == old(s)@.len() + n,
        final(s)@.subrange(0, old(s)@.len() as int) == old(s)@,
        is_alphanumeric_of_len(final(s)@.subrange(old(s)@.len() as int, final(s)@.len() as int), n as nat),
{
    let ghost start = s@;
    let mut i: usize = 0;
    while i < n
        invariant
            i <= n,
            s@.len() == start.len() + i,
            s@.subrange(0, start.len() as int) == start,
            forall|j: int| start.len() <= j < s@.len() ==> #[trigger] is_alphanumeric(s@[j]),
        decreases n - i,
    {
        let c = random_alphanumeric();
        let ghost before = s@;
        push_char(s, c);
        assert(s@.subrange(0, start.len() as int) =~= before.subrange(0, start.len() as int));
        i = i + 1;
    }
    let ghost tail = s@.subrange(start.len() as int, s@.len() as int);
    assert forall|j: int| 0 <= j < tail.len() implies #[trigger] is_alphanumeric(tail[j]) by {
        assert(tail[j] == s@[start.len() + j]);
    }
}

/// A fresh random interface name of eight characters of `[A-Za-z0-9]`.
pub fn generate_random_interface_name() -> (name: String)
    ensures
        is_interface_name(name@),
{
    let mut s = String::new();
    push_random_alphanumerics(&mut s, 8);
    assert(s@.subrange(0, s@.len() as int) =~= s@);
    s
}

/// A fresh random namespace name, `ns-` followed by eight characters of `[A-Za-z0-9]`.
pub fn generate_random_netns_name() -> (name: String)
    ensures
        is_netns_name(name@),
{
    let mut s = String::new();
    push_char(&mut s, 'n');
    push_char(&mut s, 's');
    push_char(&mut s, '-');
    assert(s@ =~= seq!['n', 's', '-']);
    push_random_alphanumerics(&mut s, 8);
    s
}

/// A fresh random netfilter table name, `table` followed by ten characters of `[A-Za-z0-9]`.
pub fn generate_random_nft_table_name() -> (name: String)
    ensures
        is_nft_table_name(name@),
{
    let mut s = String::new();
    push_char(&mut s, 't');
    push_char(&mut s, 'a');
    push_char(&mut s, 'b');
    push_char(&mut s, 'l');
    push_char(&mut s, 'e');
    assert(s@ =~= seq!['t', 'a', 'b', 'l', 'e']);
    push_random_alphanumerics(&mut s, 10);
    s
}

} // verus!
