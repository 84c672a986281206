//! Batches of channels to join with one `JOIN` command each.

use crate::client::keys::ChannelKeys;
use crate::text;
use vstd::prelude::*;
use vstd::utf8::*;

verus! {

/// The bytes of an IRC line that its end and the word `JOIN ` leave to the arguments.
pub const BUDGET: usize = 505;

/// A channel to join, with its key if it has one.
pub struct Request {
    pub channel: String,
    pub key: Option<String>,
}

/// What a [`Request`] holds.
pub struct RequestView {
    pub channel: Seq<char>,
    pub key: Option<Seq<char>>,
}

impl View for Request {
    type V = RequestView;

    open spec fn view(&self) -> RequestView {
        RequestView { channel: self.channel@, key: text::opt_text(self.key) }
    }
}

/// The arguments of a `JOIN` command: the list of channels and the list of keys.
pub type Batch = (String, Option<String>);

/// The contents of the arguments of a `JOIN` command.
pub type BatchView = (Seq<char>, Option<Seq<char>>);

/// What each batch holds.
pub open spec fn batch_views(v: Seq<Batch>) -> Seq<BatchView> {
    v.map_values(|b: Batch| (b.0@, text::opt_text(b.1)))
}

/// What each request holds.
pub open spec fn request_views(v: Seq<Request>) -> Seq<RequestView> {
    v.map_values(|r: Request| r@)
}

/// The channels with a key, each with that key, in the order in which they are listed.
pub open spec fn keyed(
    channels: Seq<Seq<char>>,
    keys: Map<Seq<char>, Seq<char>>,
) -> Seq<RequestView> {
    channels.filter(|c: Seq<char>| keys.contains_key(c)).map_values(
        |c: Seq<char>| RequestView { channel: c, key: Some(keys[c]) },
    )
}

/// The channels without a key, in the order in which they are listed.
pub open spec fn keyless(
    channels: Seq<Seq<char>>,
    keys: Map<Seq<char>, Seq<char>>,
) -> Seq<RequestView> {
    channels.filter(|c: Seq<char>| !keys.contains_key(c)).map_values(
        |c: Seq<char>| RequestView { channel: c, key: None },
    )
}

/// The order in which channels are requested. Those with a key come first: the server matches
/// keys to channels by position.
pub open spec fn request_order(
    channels: Seq<Seq<char>>,
    keys: Map<Seq<char>, Seq<char>>,
) -> Seq<RequestView> {
    keyed(channels, keys) + keyless(channels, keys)
}

/// The channels of the requests.
pub open spec fn channels_of(items: Seq<RequestView>) -> Seq<Seq<char>> {
    items.map_values(|r: RequestView| r.channel)
}

/// The keys of those requests that have one.
pub open spec fn keys_of(items: Seq<RequestView>) -> Seq<Seq<char>>
    decreases items.len(),
{
    if items.len() == 0 {
        seq![]
    } else {
        match items.last().key {
            Some(k) => keys_of(items.drop_last()).push(k),
            None => keys_of(items.drop_last()),
        }
    }
}

/// The arguments that request all of `items` with one command.
pub open spec fn arguments(items: Seq<RequestView>) -> BatchView {
    (
        text::joined(channels_of(items), seq![',']),
        if keys_of(items).len() == 0 {
            None
        } else {
            Some(text::joined(keys_of(items), seq![',']))
        },
    )
}

/// The bytes that the arguments of a `JOIN` command take, with the space between the two.
pub open spec fn payload(batch: BatchView) -> nat {
    text::byte_len(batch.0) + match batch.1 {
        Some(k) => 1 + text::byte_len(k),
        None => 0,
    }
}

/// How many of `items` one command can request, given that it takes the first `n`.
pub open spec fn run_from(items: Seq<RequestView>, n: int) -> int
    decreases items.len() - n,
{
    if 0 <= n < items.len() && payload(arguments(items.take(n + 1))) <= BUDGET {
        run_from(items, n + 1)
    } else {
        n
    }
}

/// The requests grouped by command: each group is the longest that fits one line, and is never
/// empty.
pub open spec fn groups(items: Seq<RequestView>) -> Seq<Seq<RequestView>>
    decreases items.len(),
{
    if items.len() == 0 {
        seq![]
    } else {
        let n = run_from(items, 1);
        if 1 <= n <= items.len() {
            seq![items.take(n)] + groups(items.skip(n))
        } else {
            seq![]
        }
    }
}

/// The `JOIN` commands that request `channels`.
pub open spec fn batches(
    channels: Seq<Seq<char>>,
    keys: Map<Seq<char>, Seq<char>>,
) -> Seq<BatchView> {
    groups(request_order(channels, keys)).map_values(|g: Seq<RequestView>| arguments(g))
}

/// A run stays within the requests and is as long as it can be.
proof fn run_bounds(items: Seq<RequestView>, n: int)
    requires
        0 <= n <= items.len(),
    ensures
        n <= run_from(items, n) <= items.len(),
    decreases items.len() - n,
{
    if n < items.len() && payload(arguments(items.take(n + 1))) <= BUDGET {
        run_bounds(items, n + 1);
    }
}

/// The encoding of two strings, one behind the other.
pub proof fn encoding_of_sum(a: Seq<char>, b: Seq<char>)
    ensures
        encode_utf8(a + b) == encode_utf8(a) + encode_utf8(b),
    decreases a.len(),
{
    if a.len() == 0 {
        assert(a + b =~= b);
    } else {
        encoding_of_sum(a.drop_first(), b);
        assert((a + b).drop_first() =~= a.drop_first() + b);
    }
}

/// A comma takes one byte.
proof fn comma_takes_one_byte()
    ensures
        text::byte_len(seq![',']) == 1,
{
    assert(is_ascii_chars(seq![',']));
    is_ascii_chars_encode_utf8(seq![',']);
}

/// The bytes that one more part adds to a list with commas.
proof fn one_more_part(parts: Seq<Seq<char>>, part: Seq<char>)
    ensures
        text::byte_len(text::joined(parts.push(part), seq![','])) == text::byte_len(part) + if parts.len()
            == 0 {
            0
        } else {
            text::byte_len(text::joined(parts, seq![','])) + 1
        },
{
    let all = parts.push(part);
    assert(all.drop_last() =~= parts);
    if parts.len() > 0 {
        comma_takes_one_byte();
        let head = text::joined(parts, seq![',']);
        encoding_of_sum(head + seq![','], part);
        encoding_of_sum(head, seq![',']);
    }
}

/// The channels and keys of one more request.
proof fn one_more_request(items: Seq<RequestView>, item: RequestView)
    ensures
        channels_of(items.push(item)) == channels_of(items).push(item.channel),
        keys_of(items.push(item)) == match item.key {
            Some(k) => keys_of(items).push(k),
            None => keys_of(items),
        },
{
    assert(channels_of(items.push(item)) =~= channels_of(items).push(item.channel));
    assert(items.push(item).drop_last() =~= items);
}

/// Collects the requests for `channels`, those with a key before the others.
fn requests(channels: &[String], channel_keys: &ChannelKeys) -> (r: Vec<Request>)
    ensures
        request_views(r@) == request_order(text::texts(channels@), channel_keys@),
{
    let ghost names = text::texts(channels@);
    let mut with_key: Vec<Request> = Vec::new();
    let mut without: Vec<Request> = Vec::new();
    let mut i: usize = 0;
    proof {
        reveal(Seq::filter);
        assert(names.take(0) =~= seq![]);
    }
    while i < channels.len()
        invariant
            i <= channels.len(),
            names == text::texts(channels@),
            request_views(with_key@) == keyed(names.take(i as int), channel_keys@),
            request_views(without@) == keyless(names.take(i as int), channel_keys@),
        decreases channels.len() - i,
    {
        let ghost old_with = with_key@;
        let ghost old_without = without@;
        let ghost name = names[i as int];
        proof {
            reveal(Seq::filter);
            assert(names.take(i + 1).drop_last() =~= names.take(i as int));
            assert(names.take(i + 1).last() == name);
        }
        match channel_keys.get(channels[i].as_str()) {
            Some(key) => {
                with_key.push(Request { channel: channels[i].clone(), key: Some(key.clone()) });
                assert(request_views(with_key@) =~= request_views(old_with).push(
                    RequestView { channel: name, key: Some(channel_keys@[name]) },
                ));
                assert(keyed(names.take(i + 1), channel_keys@) =~= keyed(
                    names.take(i as int),
                    channel_keys@,
                ).push(RequestView { channel: name, key: Some(channel_keys@[name]) }));
                assert(keyless(names.take(i + 1), channel_keys@) =~= keyless(
                    names.take(i as int),
                    channel_keys@,
                ));
            },
            None => {
                without.push(Request { channel: channels[i].clone(), key: None });
                assert(request_views(without@) =~= request_views(old_without).push(
                    RequestView { channel: name, key: None },
                ));
                assert(keyless(names.take(i + 1), channel_keys@) =~= keyless(
                    names.take(i as int),
                    channel_keys@,
                ).push(RequestView { channel: name, key: None }));
                assert(keyed(names.take(i + 1), channel_keys@) =~= keyed(
                    names.take(i as int),
                    channel_keys@,
                ));
            },
        }
        i = i + 1;
    }
    assert(names.take(i as int) =~= names);
    let ghost first = with_key@;
    let ghost second = without@;
    with_key.append(&mut without);
    assert(request_views(with_key@) =~= request_views(first) + request_views(second));
    with_key
}

/// The arguments that request `items[from..to]` with one command.
fn arguments_of(items: &Vec<Request>, from: usize, to: usize) -> (r: Batch)
    requires
        from <= to <= items.len(),
    ensures
        (r.0@, text::opt_text(r.1)) == arguments(
            request_views(items@).subrange(from as int, to as int),
        ),
{
    let ghost views = request_views(items@);
    let mut names: Vec<String> = Vec::new();
    let mut keys: Vec<String> = Vec::new();
    let mut i: usize = from;
    assert(views.subrange(from as int, from as int) =~= seq![]);
    assert(text::texts(names@) =~= channels_of(seq![]));
    assert(text::texts(keys@) =~= keys_of(seq![]));
    while i < to
        invariant
            from <= i <= to <= items.len(),
            views == request_views(items@),
            text::texts(names@) == channels_of(views.subrange(from as int, i as int)),
            text::texts(keys@) == keys_of(views.subrange(from as int, i as int)),
        decreases to - i,
    {
        let ghost old_names = names@;
        let ghost old_keys = keys@;
        proof {
            one_more_request(views.subrange(from as int, i as int), views[i as int]);
            assert(views.subrange(from as int, i + 1) =~= views.subrange(
                from as int,
                i as int,
            ).push(views[i as int]));
        }
        names.push(items[i].channel.clone());
        assert(text::texts(names@) =~= text::texts(old_names).push(views[i as int].channel));
        match &items[i].key {
            Some(k) => {
                keys.push(k.clone());
                assert(text::texts(keys@) =~= text::texts(old_keys).push(k@));
            },
            None => {},
        }
        i = i + 1;
    }
    proof {
        reveal_strlit(",");
        assert(","@ =~= seq![',']);
        assert(text::texts(keys@).len() == keys@.len());
    }
    let chanlist = text::join(&names, ",");
    let keylist = if keys.len() == 0 {
        None
    } else {
        Some(text::join(&keys, ","))
    };
    (chanlist, keylist)
}

/// Builds the `JOIN` commands that request `channels`.
///
/// Channels with keys are placed first, so that the server, which matches keys to channels by
/// position, gives each channel its own key. A command is ended, and another begun, where one
/// more channel would take its line over 512 bytes.
pub fn build_batched_joins(channels: &[String], channel_keys: &ChannelKeys) -> (r: Vec<Batch>)
    ensures
        batch_views(r@) == batches(text::texts(channels@), channel_keys@),
{
    let items = requests(channels, channel_keys);
    let ghost all = request_views(items@);
    let mut out: Vec<Batch> = Vec::new();
    let mut start: usize = 0;
    let mut chan_len: usize = 0;
    let mut key_len: usize = 0;
    let mut key_count: usize = 0;
    let mut i: usize = 0;
    let ghost mut done: Seq<Seq<RequestView>> = seq![];
    proof {
        assert(all.skip(0) =~= all);
        assert(all.subrange(0, 0) =~= seq![]);
    }
    while i < items.len()
        invariant
            all == request_views(items@),
            start <= i <= items.len(),
            i > 0 ==> start < i,
            groups(all) == done + groups(all.skip(start as int)),
            batch_views(out@) == done.map_values(|g: Seq<RequestView>| arguments(g)),
            i > start ==> run_from(all.skip(start as int), 1) == run_from(
                all.skip(start as int),
                i - start,
            ),
            i > start ==> chan_len == text::byte_len(
                text::joined(channels_of(all.subrange(start as int, i as int)), seq![',']),
            ),
            key_count == keys_of(all.subrange(start as int, i as int)).len(),
            key_count <= i,
            key_count > 0 ==> key_len == text::byte_len(
                text::joined(keys_of(all.subrange(start as int, i as int)), seq![',']),
            ),
        decreases items.len() - i,
    {
        let name_size = text::size(items[i].channel.as_str());
        let key_size: usize = match &items[i].key {
            Some(k) => text::size(k.as_str()),
            None => 0,
        };
        let has_key = items[i].key.is_some();
        let ghost cur = all.subrange(start as int, i as int);
        let ghost rest = all.skip(start as int);
        proof {
            assert(all.subrange(start as int, i + 1) =~= cur.push(all[i as int]));
            assert(rest.take(i - start) =~= cur);
            assert(rest.take(i - start + 1) =~= cur.push(all[i as int]));
            one_more_request(cur, all[i as int]);
            one_more_part(channels_of(cur), all[i as int].channel);
            if has_key {
                one_more_part(keys_of(cur), all[i as int].key->0);
            }
        }
        if start == i {
            chan_len = name_size;
            if has_key {
                key_len = key_size;
                key_count = 1;
            }
            assert(cur =~= seq![]);
        } else {
            let too_long = chan_len > BUDGET || name_size > BUDGET || key_size > BUDGET || (
            key_count > 0 && key_len > BUDGET);
            let new_chan_len: usize = if too_long {
                0
            } else {
                chan_len + 1 + name_size
            };
            let new_key_len: usize = if too_long {
                0
            } else if !has_key {
                key_len
            } else if key_count > 0 {
                key_len + 1 + key_size
            } else {
                key_size
            };
            let keys_after = has_key || key_count > 0;
            let over = too_long || new_chan_len > BUDGET || (keys_after && new_key_len > BUDGET)
                || (keys_after && new_chan_len + 1 + new_key_len > BUDGET);
            assert(over == (payload(arguments(cur.push(all[i as int]))) > BUDGET));
            if over {
                let batch = arguments_of(&items, start, i);
                let ghost old_out = out@;
                out.push(batch);
                proof {
                    assert(run_from(rest, 1) == i - start);
                    assert(groups(rest) == seq![cur] + groups(rest.skip(i - start)));
                    assert(rest.skip(i - start) =~= all.skip(i as int));
                    assert(done + (seq![cur] + groups(all.skip(i as int))) =~= done.push(cur)
                        + groups(all.skip(i as int)));
                    assert(batch_views(out@) =~= batch_views(old_out).push(arguments(cur)));
                    assert(done.push(cur).map_values(|g: Seq<RequestView>| arguments(g))
                        =~= done.map_values(|g: Seq<RequestView>| arguments(g)).push(
                        arguments(cur),
                    ));
                    done = done.push(cur);
                    let empty = all.subrange(i as int, i as int);
                    assert(empty =~= seq![]);
                    assert(all.subrange(i as int, i + 1) =~= empty.push(all[i as int]));
                    one_more_request(empty, all[i as int]);
                    one_more_part(channels_of(empty), all[i as int].channel);
                    if has_key {
                        one_more_part(keys_of(empty), all[i as int].key->0);
                    }
                }
                start = i;
                chan_len = name_size;
                if has_key {
                    key_len = key_size;
                    key_count = 1;
                } else {
                    key_len = 0;
                    key_count = 0;
                }
            } else {
                chan_len = new_chan_len;
                key_len = new_key_len;
                if has_key {
                    key_count = key_count + 1;
                }
            }
        }
        i = i + 1;
    }
    if start < i {
        let ghost cur = all.subrange(start as int, i as int);
        let ghost rest = all.skip(start as int);
        let batch = arguments_of(&items, start, i);
        let ghost old_out = out@;
        out.push(batch);
        proof {
            assert(rest =~= cur);
            assert(run_from(rest, 1) == rest.len());
            assert(rest.take(rest.len() as int) =~= cur);
            assert(rest.skip(rest.len() as int) =~= seq![]);
            assert(groups(rest.skip(rest.len() as int)) =~= seq![]);
            assert(groups(rest) =~= seq![cur]);
            assert(batch_views(out@) =~= batch_views(old_out).push(arguments(cur)));
            assert(groups(all) =~= done.push(cur));
            assert(groups(all).map_values(|g: Seq<RequestView>| arguments(g))
                =~= done.map_values(|g: Seq<RequestView>| arguments(g)).push(arguments(cur)));
        }
    } else {
        assert(all.skip(start as int) =~= seq![]);
        assert(groups(all) =~= done);
    }
    out
}

/// Every request stands in exactly one group, and the groups keep the order of the requests.
pub proof fn groups_keep_all_requests(items: Seq<RequestView>)
    ensures
        groups(items).flatten() == items,
    decreases items.len(),
{
    if items.len() > 0 {
        run_bounds(items, 1);
        let n = run_from(items, 1);
        groups_keep_all_requests(items.skip(n));
        let parts = groups(items);
        assert(parts.first() == items.take(n));
        assert(parts.drop_first() =~= groups(items.skip(n)));
        assert(items.take(n) + items.skip(n) =~= items);
    }
}

/// A group of more than one request fits the line, and no group is empty.
pub proof fn groups_fit_the_line(items: Seq<RequestView>, i: int)
    requires
        0 <= i < groups(items).len(),
    ensures
        groups(items)[i].len() > 0,
        groups(items)[i].len() > 1 ==> payload(arguments(groups(items)[i])) <= BUDGET,
    decreases items.len(),
{
    run_bounds(items, 1);
    let n = run_from(items, 1);
    if i == 0 {
        if n > 1 {
            run_fits(items, 1);
        }
    } else {
        assert(groups(items)[i] == groups(items.skip(n))[i - 1]);
        groups_fit_the_line(items.skip(n), i - 1);
    }
}

/// A run that was extended fits the line.
proof fn run_fits(items: Seq<RequestView>, n: int)
    requires
        0 <= n <= items.len(),
        run_from(items, n) > n,
    ensures
        payload(arguments(items.take(run_from(items, n)))) <= BUDGET,
    decreases items.len() - n,
{
    run_bounds(items, n + 1);
    if run_from(items, n + 1) > n + 1 {
        run_fits(items, n + 1);
    }
}

/// A run cannot be extended.
proof fn run_is_longest(items: Seq<RequestView>, n: int)
    requires
        0 <= n <= items.len(),
        run_from(items, n) < items.len(),
    ensures
        payload(arguments(items.take(run_from(items, n) + 1))) > BUDGET,
    decreases items.len() - n,
{
    if n < items.len() && payload(arguments(items.take(n + 1))) <= BUDGET {
        run_is_longest(items, n + 1);
    }
}

/// A group ends only where the request behind it would not have fitted the line.
pub proof fn groups_are_longest(items: Seq<RequestView>, i: int)
    requires
        0 <= i < groups(items).len() - 1,
    ensures
        groups(items)[i + 1].len() > 0,
        payload(arguments(groups(items)[i].push(groups(items)[i + 1][0]))) > BUDGET,
    decreases items.len(),
{
    run_bounds(items, 1);
    let n = run_from(items, 1);
    let rest = items.skip(n);
    groups_fit_the_line(items, i + 1);
    assert(groups(items) == seq![items.take(n)] + groups(rest));
    assert(rest.len() == 0 ==> groups(rest).len() == 0);
    if i == 0 {
        run_is_longest(items, 1);
        run_bounds(rest, 1);
        assert(groups(items)[1] == groups(rest)[0]);
        assert(groups(rest)[0][0] == items[n]);
        assert(items.take(n + 1) =~= items.take(n).push(items[n]));
    } else {
        assert(groups(items)[i] == groups(rest)[i - 1]);
        assert(groups(items)[i + 1] == groups(rest)[i]);
        groups_are_longest(rest, i - 1);
    }
}

/// The line of a `JOIN` command, without its end.
pub open spec fn join_line(batch: BatchView) -> Seq<char> {
    seq!['J', 'O', 'I', 'N', ' '] + batch.0 + match batch.1 {
        Some(k) => seq![' '] + k,
        None => seq![],
    }
}

/// A command that requests more than one channel takes at most 512 bytes with its line end, and
/// so does one that requests a single channel whose name and key leave room for the rest.
pub proof fn join_lines_stay_under_the_limit(items: Seq<RequestView>, i: int)
    requires
        0 <= i < groups(items).len(),
        groups(items)[i].len() > 1 || payload(arguments(groups(items)[i])) <= BUDGET,
    ensures
        text::byte_len(join_line(arguments(groups(items)[i])) + seq!['\r', '\n']) <= 512,
{
    groups_fit_the_line(items, i);
    let (names, keys) = arguments(groups(items)[i]);
    let word = seq!['J', 'O', 'I', 'N', ' '];
    let end = seq!['\r', '\n'];
    assert(is_ascii_chars(word));
    is_ascii_chars_encode_utf8(word);
    assert(is_ascii_chars(end));
    is_ascii_chars_encode_utf8(end);
    assert(is_ascii_chars(seq![' ']));
    is_ascii_chars_encode_utf8(seq![' ']);
    let tail = match keys {
        Some(k) => seq![' '] + k,
        None => seq![],
    };
    encoding_of_sum(word, names);
    encoding_of_sum(word + names, tail);
    encoding_of_sum(word + names + tail, end);
    match keys {
        Some(k) => encoding_of_sum(seq![' '], k),
        None => {},
    }
}

/// Whether the requests with a key come before those without.
pub open spec fn keyed_first(items: Seq<RequestView>) -> bool {
    forall|i: int, j: int|
        0 <= i < j < items.len() && (#[trigger] items[j]).key is Some ==> (
        #[trigger] items[i]).key is Some
}

/// Where the requests with a key come first, the keys are those of the first requests, one by
/// one.
proof fn keys_by_position(items: Seq<RequestView>)
    requires
        keyed_first(items),
    ensures
        keys_of(items).len() <= items.len(),
        forall|i: int|
            0 <= i < keys_of(items).len() ==> (#[trigger] items[i]).key == Some(keys_of(items)[i]),
        forall|i: int|
            keys_of(items).len() <= i < items.len() ==> (#[trigger] items[i]).key is None,
    decreases items.len(),
{
    if items.len() > 0 {
        let head = items.drop_last();
        assert(keyed_first(head)) by {
            assert forall|i: int, j: int|
                0 <= i < j < head.len() && (#[trigger] head[j]).key is Some implies (
            #[trigger] head[i]).key is Some by {
                assert(items[j].key is Some && items[i] == head[i]);
            }
        }
        keys_by_position(head);
        assert forall|i: int| 0 <= i < head.len() implies head[i] == items[i] by {}
        if items.last().key is Some {
            if keys_of(head).len() < head.len() {
                let k = keys_of(head).len() as int;
                assert(items[k].key is Some);
                assert(head[k].key is None);
            }
        }
    }
}

/// The order of requests has those with a key first.
proof fn order_has_keys_first(channels: Seq<Seq<char>>, keys: Map<Seq<char>, Seq<char>>)
    ensures
        keyed_first(request_order(channels, keys)),
{
}

/// A group is a stretch of the requests.
proof fn group_is_a_stretch(items: Seq<RequestView>, i: int) -> (r: (int, int))
    requires
        0 <= i < groups(items).len(),
    ensures
        0 <= r.0 <= r.1 <= items.len(),
        groups(items)[i] == items.subrange(r.0, r.1),
    decreases items.len(),
{
    run_bounds(items, 1);
    let n = run_from(items, 1);
    if i == 0 {
        assert(items.take(n) =~= items.subrange(0, n));
        (0, n)
    } else {
        let r = group_is_a_stretch(items.skip(n), i - 1);
        assert(groups(items)[i] == groups(items.skip(n))[i - 1]);
        assert(items.skip(n).subrange(r.0, r.1) =~= items.subrange(n + r.0, n + r.1));
        (n + r.0, n + r.1)
    }
}

/// In every command the keys belong to the channels at the same positions: the key list holds
/// the keys of the first channels, one by one, and no channel behind them has a key.
pub proof fn keys_match_by_position(
    channels: Seq<Seq<char>>,
    keys: Map<Seq<char>, Seq<char>>,
    i: int,
)
    requires
        0 <= i < groups(request_order(channels, keys)).len(),
    ensures
        ({
            let g = groups(request_order(channels, keys))[i];
            &&& keys_of(g).len() <= g.len()
            &&& forall|j: int|
                0 <= j < keys_of(g).len() ==> (#[trigger] g[j]).key == Some(keys_of(g)[j])
            &&& forall|j: int| keys_of(g).len() <= j < g.len() ==> (#[trigger] g[j]).key is None
        }),
{
    let items = request_order(channels, keys);
    let g = groups(items)[i];
    order_has_keys_first(channels, keys);
    let r = group_is_a_stretch(items, i);
    assert(keyed_first(g)) by {
        assert forall|a: int, b: int|
            0 <= a < b < g.len() && (#[trigger] g[b]).key is Some implies (
        #[trigger] g[a]).key is Some by {
            assert(g[b] == items[r.0 + b] && g[a] == items[r.0 + a]);
        }
    }
    keys_by_position(g);
}

/// What a filter keeps and what it leaves out are together what there was.
proof fn kept_and_left_out<A>(s: Seq<A>, keep: spec_fn(A) -> bool, drop: spec_fn(A) -> bool)
    requires
        forall|a: A| #[trigger] drop(a) == !keep(a),
    ensures
        s.filter(keep).to_multiset().add(s.filter(drop).to_multiset()) == s.to_multiset(),
    decreases s.len(),
{
    broadcast use vstd::seq_lib::group_to_multiset_ensures;

    reveal(Seq::filter);
    if s.len() > 0 {
        kept_and_left_out(s.drop_last(), keep, drop);
        assert(s.drop_last().push(s.last()) =~= s);
        let kept = s.drop_last().filter(keep).to_multiset();
        let left = s.drop_last().filter(drop).to_multiset();
        let now = s.filter(keep).to_multiset().add(s.filter(drop).to_multiset());
        assert(drop(s.last()) == !keep(s.last()));
        assert(now =~= kept.add(left).insert(s.last()));
    } else {
        assert(s.filter(keep).to_multiset().add(s.filter(drop).to_multiset())
            =~= s.to_multiset());
    }
}

/// Every listed channel is requested, as often as it is listed, and no other is.
pub proof fn every_channel_is_requested(
    channels: Seq<Seq<char>>,
    keys: Map<Seq<char>, Seq<char>>,
)
    ensures
        channels_of(request_order(channels, keys)).to_multiset() == channels.to_multiset(),
{
    let keep = |c: Seq<char>| keys.contains_key(c);
    let drop = |c: Seq<char>| !keys.contains_key(c);
    kept_and_left_out(channels, keep, drop);
    assert(channels_of(request_order(channels, keys)) =~= channels.filter(keep) + channels.filter(
        drop,
    ));
    vstd::seq_lib::lemma_multiset_commutative(channels.filter(keep), channels.filter(drop));
}

/// The group in which a request stands.
proof fn group_of_request(items: Seq<RequestView>, k: int) -> (i: int)
    requires
        0 <= k < items.len(),
    ensures
        0 <= i < groups(items).len(),
        groups(items)[i].contains(items[k]),
    decreases items.len(),
{
    run_bounds(items, 1);
    let n = run_from(items, 1);
    if k < n {
        assert(items.take(n)[k] == items[k]);
        0
    } else {
        let i = group_of_request(items.skip(n), k - n);
        assert(items.skip(n)[k - n] == items[k]);
        assert(groups(items)[i + 1] == groups(items.skip(n))[i]);
        i + 1
    }
}

/// The command that requests a listed channel.
pub proof fn command_for_channel(
    channels: Seq<Seq<char>>,
    keys: Map<Seq<char>, Seq<char>>,
    channel: Seq<char>,
) -> (i: int)
    requires
        channels.contains(channel),
    ensures
        0 <= i < batches(channels, keys).len(),
        channels_of(groups(request_order(channels, keys))[i]).contains(channel),
        batches(channels, keys)[i] == arguments(groups(request_order(channels, keys))[i]),
{
    broadcast use vstd::seq_lib::group_to_multiset_ensures;

    let items = request_order(channels, keys);
    every_channel_is_requested(channels, keys);
    assert(channels.to_multiset().count(channel) > 0);
    assert(channels_of(items).to_multiset().count(channel) > 0);
    assert(channels_of(items).contains(channel));
    let k = choose|k: int| 0 <= k < items.len() && channels_of(items)[k] == channel;
    let i = group_of_request(items, k);
    let g = groups(items)[i];
    let j = choose|j: int| 0 <= j < g.len() && g[j] == items[k];
    assert(channels_of(g)[j] == channel);
    i
}

/// The keys of those channels that have one, in the order of the channels.
pub open spec fn keys_for(
    channels: Seq<Seq<char>>,
    keys: Map<Seq<char>, Seq<char>>,
) -> Seq<Seq<char>> {
    channels.filter(|c: Seq<char>| keys.contains_key(c)).map_values(|c: Seq<char>| keys[c])
}

/// The bytes that it takes to ask for channels with their keys in one line: the names with commas
/// between them and, where there are keys, a space and the keys with commas between them.
pub open spec fn asking_takes(
    channels: Seq<Seq<char>>,
    keys: Map<Seq<char>, Seq<char>>,
) -> nat {
    let listed = keys_for(channels, keys);
    text::byte_len(text::joined(channels, seq![','])) + if listed.len() == 0 {
        0
    } else {
        1 + text::byte_len(text::joined(listed, seq![',']))
    }
}

/// Whether each request has the key of its channel.
spec fn keys_are_right(items: Seq<RequestView>, keys: Map<Seq<char>, Seq<char>>) -> bool {
    forall|i: int|
        0 <= i < items.len() ==> (#[trigger] items[i]).key == if keys.contains_key(
            items[i].channel,
        ) {
            Some(keys[items[i].channel])
        } else {
            None
        }
}

/// The requests have the keys of their channels.
proof fn order_has_right_keys(channels: Seq<Seq<char>>, keys: Map<Seq<char>, Seq<char>>)
    ensures
        keys_are_right(request_order(channels, keys), keys),
{
    let has = |c: Seq<char>| keys.contains_key(c);
    let lacks = |c: Seq<char>| !keys.contains_key(c);
    let items = request_order(channels, keys);
    let first = channels.filter(has);
    let second = channels.filter(lacks);
    assert forall|i: int| 0 <= i < items.len() implies (#[trigger] items[i]).key
        == if keys.contains_key(items[i].channel) {
        Some(keys[items[i].channel])
    } else {
        None
    } by {
        if i < first.len() {
            channels.lemma_filter_pred(has, i);
            assert(items[i].channel == first[i]);
        } else {
            channels.lemma_filter_pred(lacks, i - first.len());
            assert(items[i].channel == second[i - first.len()]);
        }
    }
}

/// The keys of requests are those of their channels.
proof fn keys_of_requests(items: Seq<RequestView>, keys: Map<Seq<char>, Seq<char>>)
    requires
        keys_are_right(items, keys),
    ensures
        keys_of(items) == keys_for(channels_of(items), keys),
    decreases items.len(),
{
    reveal(Seq::filter);
    let has = |c: Seq<char>| keys.contains_key(c);
    if items.len() > 0 {
        let head = items.drop_last();
        assert forall|i: int| 0 <= i < head.len() implies (#[trigger] head[i]).key
            == if keys.contains_key(head[i].channel) {
            Some(keys[head[i].channel])
        } else {
            None
        } by {
            assert(head[i] == items[i]);
        }
        keys_of_requests(head, keys);
        assert(items[items.len() - 1].key == if keys.contains_key(
            items[items.len() - 1].channel,
        ) {
            Some(keys[items[items.len() - 1].channel])
        } else {
            None
        });
        assert(channels_of(items).drop_last() =~= channels_of(head));
        assert(channels_of(items).last() == items.last().channel);
        let kept = channels_of(head).filter(has);
        if has(items.last().channel) {
            assert(channels_of(items).filter(has) =~= kept.push(items.last().channel));
            assert(keys_for(channels_of(items), keys) =~= keys_for(channels_of(head), keys).push(
                keys[items.last().channel],
            ));
        } else {
            assert(channels_of(items).filter(has) =~= kept);
        }
    } else {
        assert(channels_of(items) =~= seq![]);
        assert(channels_of(items).filter(has) =~= seq![]);
        assert(keys_for(channels_of(items), keys) =~= seq![]);
    }
}

/// The channels of groups that are laid end to end.
proof fn channels_of_groups(parts: Seq<Seq<RequestView>>)
    ensures
        parts.map_values(|g: Seq<RequestView>| channels_of(g)).flatten() == channels_of(
            parts.flatten(),
        ),
    decreases parts.len(),
{
    let names = parts.map_values(|g: Seq<RequestView>| channels_of(g));
    if parts.len() > 0 {
        channels_of_groups(parts.drop_first());
        assert(names.drop_first() =~= parts.drop_first().map_values(
            |g: Seq<RequestView>| channels_of(g),
        ));
        assert(names.first() == channels_of(parts.first()));
        assert(channels_of(parts.flatten()) =~= channels_of(parts.first()) + channels_of(
            parts.drop_first().flatten(),
        ));
    } else {
        assert(names.flatten() =~= channels_of(parts.flatten()));
    }
}

/// The channels of the command at place `i`.
spec fn part_of(channels: Seq<Seq<char>>, keys: Map<Seq<char>, Seq<char>>, i: int) -> Seq<
    Seq<char>,
> {
    channels_of(groups(request_order(channels, keys))[i])
}

/// A stretch of requests with the keys of their channels is one too.
proof fn stretches_have_right_keys(
    items: Seq<RequestView>,
    keys: Map<Seq<char>, Seq<char>>,
    part: Seq<RequestView>,
    from: int,
)
    requires
        keys_are_right(items, keys),
        0 <= from <= from + part.len() <= items.len(),
        part == items.subrange(from, from + part.len()),
    ensures
        keys_are_right(part, keys),
{
    assert forall|k: int| 0 <= k < part.len() implies (#[trigger] part[k]).key
        == if keys.contains_key(part[k].channel) {
        Some(keys[part[k].channel])
    } else {
        None
    } by {
        assert(part[k] == items[from + k]);
    }
}

/// Whether `batch` asks for the channels `part` with their keys, each key at the place of its
/// channel, in no more than 505 bytes unless there is but one channel.
pub open spec fn asks_with_keys(
    batch: BatchView,
    part: Seq<Seq<char>>,
    keys: Map<Seq<char>, Seq<char>>,
) -> bool {
    let listed = keys_for(part, keys);
    &&& part.len() > 0
    &&& batch.0 == text::joined(part, seq![','])
    &&& listed.len() == 0 ==> batch.1 is None
    &&& listed.len() > 0 ==> batch.1 == Some(text::joined(listed, seq![',']))
    &&& listed.len() <= part.len()
    &&& forall|j: int|
        0 <= j < listed.len() ==> keys.contains_key(#[trigger] part[j]) && listed[j]
            == keys[part[j]]
    &&& forall|j: int| listed.len() <= j < part.len() ==> !keys.contains_key(#[trigger] part[j])
    &&& part.len() > 1 ==> asking_takes(part, keys) <= 505
}

/// One of the `JOIN` commands.
proof fn batch_in_full(channels: Seq<Seq<char>>, keys: Map<Seq<char>, Seq<char>>, i: int)
    requires
        0 <= i < groups(request_order(channels, keys)).len(),
    ensures
        asks_with_keys(batches(channels, keys)[i], part_of(channels, keys, i), keys),
{
    let items = request_order(channels, keys);
    let g = groups(items)[i];
    let part = part_of(channels, keys, i);
    let listed = keys_for(part, keys);
    order_has_right_keys(channels, keys);
    let r = group_is_a_stretch(items, i);
    stretches_have_right_keys(items, keys, g, r.0);
    keys_of_requests(g, keys);
    keys_match_by_position(channels, keys, i);
    groups_fit_the_line(items, i);
    assert(batches(channels, keys)[i] == arguments(g));
    assert forall|j: int| 0 <= j < listed.len() implies keys.contains_key(#[trigger] part[j])
        && listed[j] == keys[part[j]] by {
        assert(part[j] == g[j].channel);
        assert(g[j].key == Some(keys_of(g)[j]));
    }
    assert forall|j: int| listed.len() <= j < part.len() implies !keys.contains_key(
        #[trigger] part[j],
    ) by {
        assert(part[j] == g[j].channel);
        assert(g[j].key is None);
    }
}

/// None of the commands could ask for one channel more.
proof fn batch_is_longest(channels: Seq<Seq<char>>, keys: Map<Seq<char>, Seq<char>>, i: int)
    requires
        0 <= i < groups(request_order(channels, keys)).len() - 1,
    ensures
        asking_takes(
            part_of(channels, keys, i).push(part_of(channels, keys, i + 1)[0]),
            keys,
        ) > 505,
{
    let items = request_order(channels, keys);
    let g = groups(items)[i];
    let next = groups(items)[i + 1];
    order_has_right_keys(channels, keys);
    groups_fit_the_line(items, i + 1);
    groups_are_longest(items, i);
    let r = group_is_a_stretch(items, i);
    stretches_have_right_keys(items, keys, g, r.0);
    let q = group_is_a_stretch(items, i + 1);
    assert(next[0] == items[q.0]);
    let more = g.push(next[0]);
    assert forall|k: int| 0 <= k < more.len() implies (#[trigger] more[k]).key
        == if keys.contains_key(more[k].channel) {
        Some(keys[more[k].channel])
    } else {
        None
    } by {
        if k < g.len() {
            assert(more[k] == g[k]);
        }
    }
    keys_of_requests(more, keys);
    assert(channels_of(next)[0] == next[0].channel);
    assert(channels_of(more) =~= channels_of(g).push(channels_of(next)[0]));
}

/// All channels are asked for: those with a key first.
proof fn all_are_asked_for(channels: Seq<Seq<char>>, keys: Map<Seq<char>, Seq<char>>)
    ensures
        groups(request_order(channels, keys)).map_values(
            |g: Seq<RequestView>| channels_of(g),
        ).flatten() == channels.filter(|c: Seq<char>| keys.contains_key(c)) + channels.filter(
            |c: Seq<char>| !keys.contains_key(c),
        ),
{
    let items = request_order(channels, keys);
    groups_keep_all_requests(items);
    channels_of_groups(groups(items));
    assert(channels_of(items) =~= channels.filter(|c: Seq<char>| keys.contains_key(c))
        + channels.filter(|c: Seq<char>| !keys.contains_key(c)));
}

/// The `JOIN` commands in full. The channels are parted into the lists of the commands: those with
/// a key first, then those without, in the order in which they are given. Each command has the
/// names of its channels and the keys of those that have one, all with commas between them; they
/// are the first, so that every key stands where its channel does. No command takes more than 505
/// bytes, unless a single channel does, and none could ask for one channel more.
pub proof fn batches_in_full(
    channels: Seq<Seq<char>>,
    keys: Map<Seq<char>, Seq<char>>,
) -> (parts: Seq<Seq<Seq<char>>>)
    ensures
        parts.len() == batches(channels, keys).len(),
        parts.flatten() == channels.filter(|c: Seq<char>| keys.contains_key(c)) + channels.filter(
            |c: Seq<char>| !keys.contains_key(c),
        ),
        forall|i: int|
            0 <= i < parts.len() ==> asks_with_keys(
                batches(channels, keys)[i],
                #[trigger] parts[i],
                keys,
            ),
        forall|i: int|
            0 <= i < parts.len() - 1 ==> asking_takes(
                (#[trigger] parts[i]).push(parts[i + 1][0]),
                keys,
            ) > 505,
{
    let gs = groups(request_order(channels, keys));
    let parts = gs.map_values(|g: Seq<RequestView>| channels_of(g));
    all_are_asked_for(channels, keys);
    assert forall|i: int| 0 <= i < parts.len() implies asks_with_keys(
        batches(channels, keys)[i],
        #[trigger] parts[i],
        keys,
    ) by {
        batch_in_full(channels, keys, i);
        assert(parts[i] == part_of(channels, keys, i));
    }
    assert forall|i: int| 0 <= i < parts.len() - 1 implies asking_takes(
        (#[trigger] parts[i]).push(parts[i + 1][0]),
        keys,
    ) > 505 by {
        batch_is_longest(channels, keys, i);
        assert(parts[i] == part_of(channels, keys, i));
        assert(parts[i + 1] == part_of(channels, keys, i + 1));
    }
    parts
}

/// The channels of the command at place `i`, where there are no keys.
spec fn part_without_keys(channels: Seq<Seq<char>>, i: int) -> Seq<Seq<char>> {
    channels_of(groups(request_order(channels, Map::empty()))[i])
}

/// One of the `JOIN` commands for channels without keys.
proof fn batch_without_keys(channels: Seq<Seq<char>>, i: int)
    requires
        0 <= i < groups(request_order(channels, Map::empty())).len(),
    ensures
        part_without_keys(channels, i).len() > 0,
        batches(channels, Map::empty())[i].0 == text::joined(
            part_without_keys(channels, i),
            seq![','],
        ),
        batches(channels, Map::empty())[i].1 is None,
        part_without_keys(channels, i).len() > 1 ==> text::byte_len(
            text::joined(part_without_keys(channels, i), seq![',']),
        ) <= 505,
{
    let keys = Map::<Seq<char>, Seq<char>>::empty();
    let items = request_order(channels, keys);
    let g = groups(items)[i];
    order_has_right_keys(channels, keys);
    groups_fit_the_line(items, i);
    let r = group_is_a_stretch(items, i);
    no_keys(g, items, r.0);
    assert(batches(channels, keys)[i] == arguments(g));
}

/// None of these commands could ask for one channel more.
proof fn batch_without_keys_is_longest(channels: Seq<Seq<char>>, i: int)
    requires
        0 <= i < groups(request_order(channels, Map::empty())).len() - 1,
    ensures
        text::byte_len(
            text::joined(
                part_without_keys(channels, i).push(part_without_keys(channels, i + 1)[0]),
                seq![','],
            ),
        ) > 505,
{
    let keys = Map::<Seq<char>, Seq<char>>::empty();
    let items = request_order(channels, keys);
    let g = groups(items)[i];
    let next = groups(items)[i + 1];
    order_has_right_keys(channels, keys);
    groups_fit_the_line(items, i + 1);
    groups_are_longest(items, i);
    let r = group_is_a_stretch(items, i);
    no_keys(g, items, r.0);
    let q = group_is_a_stretch(items, i + 1);
    let more = g.push(next[0]);
    assert(next[0] == items[q.0]);
    assert(more.drop_last() =~= g);
    assert(more.last() == next[0]);
    assert(keys_of(more).len() == 0);
    assert(channels_of(next)[0] == next[0].channel);
    assert(channels_of(more) =~= channels_of(g).push(channels_of(next)[0]));
}

/// The `JOIN` commands for channels without keys: the channels are parted, in their order, into the
/// lists of the commands, which have no list of keys. No command takes more than 505 bytes, unless
/// a single channel does, and none could ask for one channel more.
pub proof fn batches_without_keys(channels: Seq<Seq<char>>) -> (parts: Seq<Seq<Seq<char>>>)
    ensures
        parts.len() == batches(channels, Map::empty()).len(),
        parts.flatten() == channels,
        forall|i: int|
            0 <= i < parts.len() ==> {
                &&& (#[trigger] parts[i]).len() > 0
                &&& batches(channels, Map::empty())[i].0 == text::joined(parts[i], seq![','])
                &&& batches(channels, Map::empty())[i].1 is None
                &&& parts[i].len() > 1 ==> text::byte_len(text::joined(parts[i], seq![','])) <= 505
                &&& i + 1 < parts.len() ==> text::byte_len(
                    text::joined(parts[i].push(parts[i + 1][0]), seq![',']),
                ) > 505
            },
{
    let gs = groups(request_order(channels, Map::empty()));
    let parts = gs.map_values(|g: Seq<RequestView>| channels_of(g));
    all_without_keys(channels);
    assert forall|i: int| 0 <= i < parts.len() implies {
        &&& (#[trigger] parts[i]).len() > 0
        &&& batches(channels, Map::empty())[i].0 == text::joined(parts[i], seq![','])
        &&& batches(channels, Map::empty())[i].1 is None
        &&& parts[i].len() > 1 ==> text::byte_len(text::joined(parts[i], seq![','])) <= 505
        &&& i + 1 < parts.len() ==> text::byte_len(
            text::joined(parts[i].push(parts[i + 1][0]), seq![',']),
        ) > 505
    } by {
        assert(parts[i] == part_without_keys(channels, i));
        batch_without_keys(channels, i);
        if i + 1 < parts.len() {
            assert(parts[i + 1] == part_without_keys(channels, i + 1));
            batch_without_keys_is_longest(channels, i);
        }
    }
    parts
}

/// All channels are asked for, in their order, where there are no keys.
proof fn all_without_keys(channels: Seq<Seq<char>>)
    ensures
        groups(request_order(channels, Map::empty())).map_values(
            |g: Seq<RequestView>| channels_of(g),
        ).flatten() == channels,
{
    let keys = Map::<Seq<char>, Seq<char>>::empty();
    let items = request_order(channels, keys);
    let has = |c: Seq<char>| keys.contains_key(c);
    let lacks = |c: Seq<char>| !keys.contains_key(c);
    groups_keep_all_requests(items);
    channels_of_groups(groups(items));
    channels.lemma_all_neg_filter_empty(has);
    crate::client::channels::kept_all(channels, lacks);
    assert(channels_of(items) =~= channels);
}

/// Requests without keys have none to list.
proof fn no_keys(part: Seq<RequestView>, items: Seq<RequestView>, from: int)
    requires
        keys_are_right(items, Map::empty()),
        0 <= from <= from + part.len() <= items.len(),
        part == items.subrange(from, from + part.len()),
    ensures
        keys_of(part).len() == 0,
    decreases part.len(),
{
    if part.len() > 0 {
        let head = part.drop_last();
        assert(head =~= items.subrange(from, from + head.len()));
        no_keys(head, items, from);
        assert(part.last() == items[from + part.len() - 1]);
    }
}

/// What contracts say of batches they say of both lists of each, in its place.
pub proof fn batches_are_shown_in_full(v: Seq<Batch>, i: int)
    requires
        0 <= i < v.len(),
    ensures
        batch_views(v).len() == v.len(),
        batch_views(v)[i].0 == v[i].0@,
        v[i].1 is None <==> batch_views(v)[i].1 is None,
        v[i].1 matches Some(k) ==> batch_views(v)[i].1 == Some(k@),
{
}

} // verus!
