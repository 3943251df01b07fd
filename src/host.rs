use vstd::prelude::*;

verus! {

/// Largest target port a Host header may carry.
pub const MAX_PORT: u64 = 65535;

pub open spec fn is_ascii_digit(c: char) -> bool {
    '0' <= c && c <= '9'
}

pub open spec fn is_id_char(c: char) -> bool {
    ('a' <= c && c <= 'z') || is_ascii_digit(c) || c == '-'
}

/// A workload identifier: `[a-z0-9]([-a-z0-9]*[a-z0-9])?`.
pub open spec fn is_workload_id(id: Seq<char>) -> bool {
    &&& id.len() > 0
    &&& forall|i: int| 0 <= i < id.len() ==> is_id_char(#[trigger] id[i])
    &&& id[0] != '-'
    &&& id.last() != '-'
}

/// A non-empty run of decimal digits.
pub open spec fn is_digit_run(s: Seq<char>) -> bool {
    &&& s.len() > 0
    &&& forall|i: int| 0 <= i < s.len() ==> is_ascii_digit(#[trigger] s[i])
}

pub open spec fn digit_value(c: char) -> nat {
    (c as nat - '0' as nat) as nat
}

/// The number that a run of decimal digits denotes.
pub open spec fn digits_value(s: Seq<char>) -> nat
    decreases s.len(),
{
    if s.len() == 0 {
        0
    } else {
        digits_value(s.drop_last()) * 10 + digit_value(s.last())
    }
}

pub open spec fn digit_char(d: nat) -> char {
    if d == 0 {
        '0'
    } else if d == 1 {
        '1'
    } else if d == 2 {
        '2'
    } else if d == 3 {
        '3'
    } else if d == 4 {
        '4'
    } else if d == 5 {
        '5'
    } else if d == 6 {
        '6'
    } else if d == 7 {
        '7'
    } else if d == 8 {
        '8'
    } else {
        '9'
    }
}

/// The decimal digits of `n`, without leading zeros.
pub open spec fn decimal(n: nat) -> Seq<char>
    decreases n,
{
    if n < 10 {
        seq![digit_char(n)]
    } else {
        decimal(n / 10).push(digit_char(n % 10))
    }
}

/// `i` is the position of the first `c` in `s`.
pub open spec fn is_first_index(s: Seq<char>, c: char, i: int) -> bool {
    &&& 0 <= i < s.len()
    &&& s[i] == c
    &&& forall|j: int| 0 <= j < i ==> s[j] != c
}

/// `i` is the position of the last `c` in `s`.
pub open spec fn is_last_index(s: Seq<char>, c: char, i: int) -> bool {
    &&& 0 <= i < s.len()
    &&& s[i] == c
    &&& forall|j: int| i < j < s.len() ==> s[j] != c
}

pub open spec fn first_index(s: Seq<char>, c: char) -> Option<int> {
    if exists|i: int| is_first_index(s, c, i) {
        Some(choose|i: int| is_first_index(s, c, i))
    } else {
        None
    }
}

pub open spec fn last_index(s: Seq<char>, c: char) -> Option<int> {
    if exists|i: int| is_last_index(s, c, i) {
        Some(choose|i: int| is_last_index(s, c, i))
    } else {
        None
    }
}

/// The host name without a trailing `:port` that some clients add.
pub open spec fn host_name(h: Seq<char>) -> Seq<char> {
    match first_index(h, ':') {
        Some(i) => h.take(i),
        None => h,
    }
}

/// Splits the first label `<id>-<digits>` at its last hyphen.
pub open spec fn parse_label(label: Seq<char>) -> Option<(Seq<char>, nat)> {
    match last_index(label, '-') {
        None => None,
        Some(k) => {
            let id = label.take(k);
            let digits = label.skip(k + 1);
            if is_workload_id(id) && is_digit_run(digits) && digits_value(digits) <= MAX_PORT {
                Some((id, digits_value(digits)))
            } else {
                None
            }
        },
    }
}

/// What a Host header routes to: the identifier and target port in
/// `<id>-<port>.<domain>[:client-port]`, or nothing.
pub open spec fn parse_host_spec(h: Seq<char>) -> Option<(Seq<char>, nat)> {
    let name = host_name(h);
    match first_index(name, '.') {
        None => None,
        Some(d) => parse_label(name.take(d)),
    }
}

proof fn lemma_first_index_unique(s: Seq<char>, c: char, i: int)
    requires
        is_first_index(s, c, i),
    ensures
        first_index(s, c) == Some(i),
{
    let k = choose|k: int| is_first_index(s, c, k);
    assert(is_first_index(s, c, k));
    if k < i {
        assert(s[k] != c);
    }
    if i < k {
        assert(s[i] != c);
    }
}

proof fn lemma_no_first_index(s: Seq<char>, c: char)
    requires
        forall|j: int| 0 <= j < s.len() ==> s[j] != c,
    ensures
        first_index(s, c) is None,
{
}

proof fn lemma_last_index_unique(s: Seq<char>, c: char, i: int)
    requires
        is_last_index(s, c, i),
    ensures
        last_index(s, c) == Some(i),
{
    let k = choose|k: int| is_last_index(s, c, k);
    assert(is_last_index(s, c, k));
    if k < i {
        assert(s[i] != c);
    }
    if i < k {
        assert(s[k] != c);
    }
}

proof fn lemma_digits_value_prefix_grows(s: Seq<char>, j: int)
    requires
        0 <= j <= s.len(),
    ensures
        digits_value(s.take(j)) <= digits_value(s),
    decreases s.len() - j,
{
    if j < s.len() {
        lemma_digits_value_prefix_grows(s, j + 1);
        assert(s.take(j + 1).drop_last() =~= s.take(j));
        assert(s.take(j + 1).len() > 0);
    } else {
        assert(s.take(j) =~= s);
    }
}

/// Copies the characters of `s` into a vector, in order.
fn chars_of(s: &str) -> (v: Vec<char>)
    ensures
        v@ == s@,
{
    let mut v: Vec<char> = Vec::new();
    for c in it: s.chars()
        invariant
            v@ == it.seq().take(it.index() as int),
    {
        v.push(c);
    }
    v
}

/// Position of the first `c` in `v[0..end]`, or `end` when there is none.
fn find_first(v: &Vec<char>, end: usize, c: char) -> (r: usize)
    requires
        end <= v.len(),
    ensures
        r <= end,
        r < end ==> is_first_index(v@.take(end as int), c, r as int),
        r == end ==> forall|j: int| 0 <= j < end ==> v@[j] != c,
{
    let mut i: usize = 0;
    while i < end
        invariant
            i <= end <= v.len(),
            forall|j: int| 0 <= j < i ==> v@[j] != c,
        decreases end - i,
    {
        if v[i] == c {
            return i;
        }
        i += 1;
    }
    i
}

/// Position of the last `c` in `v[0..end]`, or `None`.
fn find_last(v: &Vec<char>, end: usize, c: char) -> (r: Option<usize>)
    requires
        end <= v.len(),
    ensures
        r matches Some(k) ==> is_last_index(v@.take(end as int), c, k as int),
        r is None ==> forall|j: int| 0 <= j < end ==> v@[j] != c,
{
    let mut i: usize = end;
    while i > 0
        invariant
            i <= end <= v.len(),
            forall|j: int| i <= j < end ==> v@[j] != c,
        decreases i,
    {
        if v[i - 1] == c {
            return Some(i - 1);
        }
        i -= 1;
    }
    None
}

/// Whether `v[from..to]` is a workload identifier.
fn check_workload_id(v: &Vec<char>, from: usize, to: usize) -> (r: bool)
    requires
        from <= to <= v.len(),
    ensures
        r == is_workload_id(v@.subrange(from as int, to as int)),
{
    let ghost id = v@.subrange(from as int, to as int);
    if from == to {
        return false;
    }
    if v[from] == '-' || v[to - 1] == '-' {
        return false;
    }
    let mut i: usize = from;
    while i < to
        invariant
            from <= i <= to <= v.len(),
            id == v@.subrange(from as int, to as int),
            forall|j: int| 0 <= j < i - from ==> is_id_char(#[trigger] id[j]),
        decreases to - i,
    {
        let c = v[i];
        if !(('a' <= c && c <= 'z') || ('0' <= c && c <= '9') || c == '-') {
            assert(!is_id_char(id[i - from]));
            return false;
        }
        i += 1;
    }
    true
}

/// The value of the digit run `v[from..to]` when it is one and at most
/// `MAX_PORT`, else `None`.
fn port_value(v: &Vec<char>, from: usize, to: usize) -> (r: Option<u16>)
    requires
        from <= to <= v.len(),
    ensures
        ({
            let digits = v@.subrange(from as int, to as int);
            match r {
                Some(p) => is_digit_run(digits) && digits_value(digits) <= MAX_PORT
                    && p as nat == digits_value(digits),
                None => !(is_digit_run(digits) && digits_value(digits) <= MAX_PORT),
            }
        }),
{
    let ghost digits = v@.subrange(from as int, to as int);
    if from == to {
        return None;
    }
    let mut value: u64 = 0;
    let mut i: usize = from;
    while i < to
        invariant
            from <= i <= to <= v.len(),
            digits == v@.subrange(from as int, to as int),
            value <= MAX_PORT,
            value == digits_value(digits.take(i - from)),
            forall|j: int| 0 <= j < i - from ==> is_ascii_digit(#[trigger] digits[j]),
        decreases to - i,
    {
        let c = v[i];
        if !('0' <= c && c <= '9') {
            assert(!is_ascii_digit(digits[i - from]));
            return None;
        }
        let ghost k = i - from;
        assert(digits.take(k + 1).drop_last() =~= digits.take(k));
        value = value * 10 + (c as u64 - '0' as u64);
        i += 1;
        if value > MAX_PORT {
            proof {
                lemma_digits_value_prefix_grows(digits, k + 1);
            }
            return None;
        }
    }
    assert(digits.take(i - from) =~= digits);
    Some(value as u16)
}

/// Reads the workload identifier and target port from a Host header of the
/// shape `<id>-<port>.<domain>[:client-port]`.
pub fn parse_host(host: &str) -> (r: Option<(String, u16)>)
    ensures
        match r {
            Some((id, port)) => parse_host_spec(host@) == Some((id@, port as nat)),
            None => parse_host_spec(host@) is None,
        },
{
    let v = chars_of(host);
    let ghost h = host@;
    let n = v.len();
    let name_end = find_first(&v, n, ':');
    let ghost name = host_name(h);
    proof {
        if name_end < n {
            assert(v@.take(n as int) =~= h);
            lemma_first_index_unique(h, ':', name_end as int);
        } else {
            lemma_no_first_index(h, ':');
            assert(h.take(n as int) =~= h);
        }
        assert(name =~= v@.take(name_end as int));
    }
    let dot = find_first(&v, name_end, '.');
    if dot == name_end {
        proof {
            lemma_no_first_index(name, '.');
        }
        return None;
    }
    let ghost label = name.take(dot as int);
    proof {
        lemma_first_index_unique(name, '.', dot as int);
        assert(label =~= v@.take(dot as int));
    }
    let hyphen = find_last(&v, dot, '-');
    match hyphen {
        None => {
            proof {
                assert(forall|j: int| 0 <= j < label.len() ==> label[j] == v@[j]);
                assert(!(exists|i: int| is_last_index(label, '-', i)));
            }
            None
        },
        Some(k) => {
            proof {
                assert(v@.take(dot as int) =~= label);
                lemma_last_index_unique(label, '-', k as int);
                assert(label.take(k as int) =~= v@.subrange(0, k as int));
                assert(label.skip(k + 1) =~= v@.subrange(k + 1, dot as int));
            }
            if !check_workload_id(&v, 0, k) {
                return None;
            }
            match port_value(&v, k + 1, dot) {
                None => None,
                Some(port) => {
                    let id = host.substring_char(0, k).to_owned();
                    proof {
                        assert(id@ =~= v@.subrange(0, k as int));
                    }
                    Some((id, port))
                },
            }
        },
    }
}

proof fn lemma_digit_char(d: nat)
    requires
        d < 10,
    ensures
        is_ascii_digit(digit_char(d)),
        digit_value(digit_char(d)) == d,
{
    assert('0' as nat == 48);
    assert('9' as nat == 57);
    if d == 0 {
        assert(digit_char(d) as nat == 48);
    } else if d == 1 {
        assert(digit_char(d) as nat == 49);
    } else if d == 2 {
        assert(digit_char(d) as nat == 50);
    } else if d == 3 {
        assert(digit_char(d) as nat == 51);
    } else if d == 4 {
        assert(digit_char(d) as nat == 52);
    } else if d == 5 {
        assert(digit_char(d) as nat == 53);
    } else if d == 6 {
        assert(digit_char(d) as nat == 54);
    } else if d == 7 {
        assert(digit_char(d) as nat == 55);
    } else if d == 8 {
        assert(digit_char(d) as nat == 56);
    } else {
        assert(digit_char(d) as nat == 57);
    }
}

proof fn lemma_decimal(n: nat)
    ensures
        is_digit_run(decimal(n)),
        digits_value(decimal(n)) == n,
    decreases n,
{
    if n < 10 {
        lemma_digit_char(n);
        let d = decimal(n);
        assert(d.drop_last() =~= Seq::<char>::empty());
        assert(digits_value(d.drop_last()) == 0);
        assert(d.last() == digit_char(n));
        assert(digits_value(d) == digits_value(d.drop_last()) * 10 + digit_value(d.last()));
    } else {
        lemma_decimal(n / 10);
        lemma_digit_char(n % 10);
        let d = decimal(n);
        assert(d.drop_last() =~= decimal(n / 10));
        assert(d.last() == digit_char(n % 10));
        assert(digits_value(d) == digits_value(d.drop_last()) * 10 + digit_value(d.last()));
        assert(n == (n / 10) * 10 + n % 10);
        assert forall|i: int| 0 <= i < d.len() implies is_ascii_digit(#[trigger] d[i]) by {
            if i < d.len() - 1 {
                assert(d[i] == decimal(n / 10)[i]);
            }
        }
    }
}

/// The label `<id>-<digits>` of a valid identifier and a digit run parses to
/// the identifier and the digits' value.
proof fn lemma_parse_label(id: Seq<char>, digits: Seq<char>)
    requires
        is_workload_id(id),
        is_digit_run(digits),
        digits_value(digits) <= MAX_PORT,
    ensures
        parse_label(id + seq!['-'] + digits) == Some((id, digits_value(digits))),
{
    let label = id + seq!['-'] + digits;
    let k = id.len() as int;
    assert(label[k] == '-');
    assert forall|j: int| k < j < label.len() implies label[j] != '-' by {
        assert(label[j] == digits[j - k - 1]);
        assert(is_ascii_digit(digits[j - k - 1]));
    }
    lemma_last_index_unique(label, '-', k);
    assert(label.take(k) =~= id);
    assert(label.skip(k + 1) =~= digits);
}

/// Round trip: for every valid identifier `id`, every port `p` and any
/// domain `rest`, the host `<id>-<p>.<rest>` routes to exactly `(id, p)`,
/// and a `:<suffix>` appended to it changes nothing.
pub proof fn lemma_parse_host_round_trip(id: Seq<char>, p: u16, rest: Seq<char>, suffix: Seq<char>)
    requires
        is_workload_id(id),
    ensures
        parse_host_spec(id + seq!['-'] + decimal(p as nat) + seq!['.'] + rest) == Some(
            (id, p as nat),
        ),
        parse_host_spec(id + seq!['-'] + decimal(p as nat) + seq!['.'] + rest + seq![':'] + suffix)
            == Some((id, p as nat)),
{
    lemma_decimal(p as nat);
    lemma_host_with_label(id, decimal(p as nat), rest);
    lemma_host_with_label(id, decimal(p as nat), rest + seq![':'] + suffix);
    assert(id + seq!['-'] + decimal(p as nat) + seq!['.'] + rest + seq![':'] + suffix =~= id
        + seq!['-'] + decimal(p as nat) + seq!['.'] + (rest + seq![':'] + suffix));
}

proof fn lemma_host_with_label(id: Seq<char>, digits: Seq<char>, rest: Seq<char>)
    requires
        is_workload_id(id),
        is_digit_run(digits),
        digits_value(digits) <= MAX_PORT,
    ensures
        parse_host_spec(id + seq!['-'] + digits + seq!['.'] + rest) == Some(
            (id, digits_value(digits)),
        ),
{
    let label = id + seq!['-'] + digits;
    assert forall|j: int| 0 <= j < label.len() implies label[j] != ':' && label[j] != '.' by {
        if j < id.len() {
            assert(is_id_char(id[j]));
        } else if j > id.len() {
            assert(label[j] == digits[j - id.len() - 1]);
            assert(is_ascii_digit(digits[j - id.len() - 1]));
        }
    }
    lemma_first_label(label, rest);
    lemma_parse_label(id, digits);
}

/// A host whose text before its first dot holds no colon is parsed from
/// that text alone.
proof fn lemma_first_label(label: Seq<char>, rest: Seq<char>)
    requires
        forall|j: int| 0 <= j < label.len() ==> label[j] != ':' && label[j] != '.',
    ensures
        parse_host_spec(label + seq!['.'] + rest) == parse_label(label),
{
    let h = label + seq!['.'] + rest;
    let d = label.len() as int;
    assert forall|j: int| 0 <= j < d implies h[j] != ':' && h[j] != '.' by {
        assert(h[j] == label[j]);
    }
    assert(h[d] == '.');
    let name = host_name(h);
    if exists|i: int| is_first_index(h, ':', i) {
        let i = choose|i: int| is_first_index(h, ':', i);
        lemma_first_index_unique(h, ':', i);
        assert(i > d);
        assert(name == h.take(i));
    } else {
        assert(name == h);
    }
    assert(name.len() > d);
    assert forall|j: int| 0 <= j <= d implies name[j] == h[j] by {}
    lemma_first_index_unique(name, '.', d);
    assert(name.take(d) =~= label);
}

/// Hosts that route nowhere: the empty host; a host without a dot; a host
/// that starts with a hyphen; an identifier that ends with a hyphen (a double
/// hyphen before the port digits, after a prefix of identifier characters); and a host with no digit before its first
/// dot.
pub proof fn lemma_parse_host_rejects(h: Seq<char>, id: Seq<char>, digits: Seq<char>, rest: Seq<char>)
    ensures
        parse_host_spec(Seq::empty()) is None,
        (forall|j: int| 0 <= j < h.len() ==> h[j] != '.') ==> parse_host_spec(h) is None,
        h.len() > 0 && h[0] == '-' ==> parse_host_spec(h) is None,
        (forall|i: int| 0 <= i < id.len() ==> is_id_char(#[trigger] id[i])) && is_digit_run(digits)
            ==> parse_host_spec(id + seq!['-', '-'] + digits + seq!['.'] + rest) is None,
        (forall|d: int| #[trigger] is_first_index(h, '.', d) ==> forall|j: int| 0 <= j < d ==> !is_ascii_digit(h[j]))
            ==> parse_host_spec(h) is None,
{
    lemma_host_without_dot(Seq::empty());
    if forall|j: int| 0 <= j < h.len() ==> h[j] != '.' {
        lemma_host_without_dot(h);
    }
    if h.len() > 0 && h[0] == '-' {
        lemma_host_starting_with_hyphen(h);
    }
    if (forall|i: int| 0 <= i < id.len() ==> is_id_char(#[trigger] id[i])) && is_digit_run(digits) {
        lemma_double_hyphen(id, digits, rest);
    }
    if forall|d: int| #[trigger] is_first_index(h, '.', d) ==> forall|j: int| 0 <= j < d ==> !is_ascii_digit(h[j]) {
        lemma_no_digit_before_dot(h);
    }
}

proof fn lemma_name_is_prefix(h: Seq<char>)
    ensures
        host_name(h).len() <= h.len(),
        forall|j: int| 0 <= j < host_name(h).len() ==> host_name(h)[j] == h[j],
{
    if exists|i: int| is_first_index(h, ':', i) {
        let i = choose|i: int| is_first_index(h, ':', i);
        lemma_first_index_unique(h, ':', i);
    }
}

proof fn lemma_host_without_dot(h: Seq<char>)
    requires
        forall|j: int| 0 <= j < h.len() ==> h[j] != '.',
    ensures
        parse_host_spec(h) is None,
{
    lemma_name_is_prefix(h);
    let name = host_name(h);
    assert forall|j: int| 0 <= j < name.len() implies name[j] != '.' by {
        assert(name[j] == h[j]);
    }
    lemma_no_first_index(name, '.');
}

proof fn lemma_host_starting_with_hyphen(h: Seq<char>)
    requires
        h.len() > 0,
        h[0] == '-',
    ensures
        parse_host_spec(h) is None,
{
    lemma_name_is_prefix(h);
    let name = host_name(h);
    match first_index(name, '.') {
        None => {},
        Some(d) => {
            let d = choose|i: int| is_first_index(name, '.', i);
            lemma_first_index_unique(name, '.', d);
            let label = name.take(d);
            if d > 0 {
                assert(name[0] == h[0]);
                assert(label[0] == '-');
                match last_index(label, '-') {
                    None => {},
                    Some(k) => {
                        let k = choose|i: int| is_last_index(label, '-', i);
                        lemma_last_index_unique(label, '-', k);
                        if k > 0 {
                            assert(label.take(k)[0] == '-');
                        }
                    },
                }
            } else {
                assert(label.len() == 0);
                lemma_no_last_index(label, '-');
            }
        },
    }
}

proof fn lemma_no_last_index(s: Seq<char>, c: char)
    requires
        forall|j: int| 0 <= j < s.len() ==> s[j] != c,
    ensures
        last_index(s, c) is None,
{
}

proof fn lemma_double_hyphen(id: Seq<char>, digits: Seq<char>, rest: Seq<char>)
    requires
        forall|i: int| 0 <= i < id.len() ==> is_id_char(#[trigger] id[i]),
        is_digit_run(digits),
    ensures
        parse_host_spec(id + seq!['-', '-'] + digits + seq!['.'] + rest) is None,
{
    let label = id + seq!['-', '-'] + digits;
    let k: int = id.len() as int + 1;
    assert forall|j: int| 0 <= j < label.len() implies label[j] != ':' && label[j] != '.' && (j > k
        ==> label[j] != '-') by {
        if j < id.len() {
            assert(is_id_char(id[j]));
        } else if j > k {
            assert(label[j] == digits[j - k - 1]);
            assert(is_ascii_digit(digits[j - k - 1]));
        }
    }
    assert(id + seq!['-', '-'] + digits + seq!['.'] + rest =~= label + seq!['.'] + rest);
    lemma_first_label(label, rest);
    assert(label[k] == '-');
    lemma_last_index_unique(label, '-', k);
    assert(label.take(k).last() == '-');
}

proof fn lemma_no_digit_before_dot(h: Seq<char>)
    requires
        forall|d: int| #[trigger] is_first_index(h, '.', d) ==> forall|j: int| 0 <= j < d ==> !is_ascii_digit(h[j]),
    ensures
        parse_host_spec(h) is None,
{
    lemma_name_is_prefix(h);
    let name = host_name(h);
    match first_index(name, '.') {
        None => {},
        Some(d) => {
            let d = choose|i: int| is_first_index(name, '.', i);
            lemma_first_index_unique(name, '.', d);
            assert(is_first_index(h, '.', d));
            let label = name.take(d);
            match last_index(label, '-') {
                None => {},
                Some(m) => {
                    let m = choose|i: int| is_last_index(label, '-', i);
                    lemma_last_index_unique(label, '-', m);
                    let digits = label.skip(m + 1);
                    if digits.len() > 0 {
                        assert(digits[0] == h[m + 1]);
                    }
                },
            }
        },
    }
}

} // verus!
