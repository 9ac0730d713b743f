//! The text of an IP address: which texts name an address of version 4, as
//! a dotted quad, or of version 6, as groups of digits between colons.

use vstd::prelude::*;

verus! {

/// The longest text that names an address: six groups of four digits, six
/// colons and a dotted quad of fifteen characters.
pub const MAX_ADDRESS_LENGTH: usize = 45;

/// Whether `c` is one of the digits `0` to `9`.
pub open spec fn is_decimal_digit(c: char) -> bool {
    '0' as u32 <= c as u32 <= '9' as u32
}

/// Whether `c` is a digit to the base sixteen, in either case.
pub open spec fn is_hex_digit(c: char) -> bool {
    ||| is_decimal_digit(c)
    ||| 'a' as u32 <= c as u32 <= 'f' as u32
    ||| 'A' as u32 <= c as u32 <= 'F' as u32
}

/// The number that the decimal digits `digits` write.
pub open spec fn decimal_value(digits: Seq<char>) -> int
    decreases digits.len(),
{
    if digits.len() == 0 {
        0
    } else {
        decimal_value(digits.drop_last()) * 10 + (digits.last() as u32 - '0' as u32)
    }
}

/// The fields of `text` between the separators: one more than the text has
/// separators, each without a separator in it, and empty where two
/// separators meet or the text begins or ends with one.
pub open spec fn fields(text: Seq<char>, separator: char) -> Seq<Seq<char>>
    decreases text.len(),
{
    if text.len() == 0 {
        seq![Seq::empty()]
    } else {
        let before = fields(text.drop_last(), separator);
        if text.last() == separator {
            before.push(Seq::empty())
        } else {
            before.drop_last().push(before.last().push(text.last()))
        }
    }
}

/// Whether `field` writes a number from 0 to 255 in one to three decimal
/// digits, without a zero in front of other digits.
pub open spec fn is_octet(field: Seq<char>) -> bool {
    &&& 1 <= field.len() <= 3
    &&& forall|i: int| 0 <= i < field.len() ==> is_decimal_digit(#[trigger] field[i])
    &&& field.len() > 1 ==> field[0] != '0'
    &&& decimal_value(field) <= 255
}

/// Whether `field` is a group of one to four digits to the base sixteen.
pub open spec fn is_hex_group(field: Seq<char>) -> bool {
    &&& 1 <= field.len() <= 4
    &&& forall|i: int| 0 <= i < field.len() ==> is_hex_digit(#[trigger] field[i])
}

/// Whether `text` names an address of version 4: four octets with dots
/// between them.
pub open spec fn is_ipv4_address(text: Seq<char>) -> bool {
    let parts = fields(text, '.');
    &&& parts.len() == 4
    &&& forall|i: int| 0 <= i < parts.len() ==> is_octet(#[trigger] parts[i])
}

/// The number of sixteen-bit groups that `list` writes, if it is a list of
/// groups: nothing at all, or groups of digits with single colons between
/// them. Where `quad_allowed` holds the last item may be a dotted quad,
/// which stands for two groups.
pub open spec fn group_count(list: Seq<char>, quad_allowed: bool) -> Option<int> {
    let parts = fields(list, ':');
    let last = parts.len() - 1;
    if list.len() == 0 {
        Some(0)
    } else if !(forall|i: int| 0 <= i < last ==> is_hex_group(#[trigger] parts[i])) {
        None
    } else if is_hex_group(parts[last]) {
        Some(last + 1)
    } else if quad_allowed && is_ipv4_address(parts[last]) {
        Some(last + 2)
    } else {
        None
    }
}

/// Where the first double colon of `text` at or after `start` begins, or -1
/// where there is none.
pub open spec fn double_colon_from(text: Seq<char>, start: int) -> int
    decreases text.len() - start,
{
    if start < 0 || start + 1 >= text.len() {
        -1
    } else if text[start] == ':' && text[start + 1] == ':' {
        start
    } else {
        double_colon_from(text, start + 1)
    }
}

/// Whether `text` names an address of version 6. Written in full it is a
/// list of eight groups, in which a dotted quad may stand for the last two.
/// Written short it has one double colon in place of one or more groups of
/// zeros, after a list of groups without a dotted quad and before another
/// list; the two lists then hold seven groups at most.
pub open spec fn is_ipv6_address(text: Seq<char>) -> bool {
    let at = double_colon_from(text, 0);
    if at < 0 {
        group_count(text, true) == Some(8int)
    } else {
        let head = group_count(text.subrange(0, at), false);
        let tail = group_count(text.subrange(at + 2, text.len() as int), true);
        &&& head is Some
        &&& tail is Some
        &&& head->0 + tail->0 <= 7
    }
}

/// Whether `text` names an IP address, of version 4 or of version 6.
pub open spec fn is_ip_address(text: Seq<char>) -> bool {
    is_ipv4_address(text) || is_ipv6_address(text)
}

/// Whether `c` can stand in the text of an address: a digit to the base
/// sixteen, a colon or a dot.
pub open spec fn is_address_character(c: char) -> bool {
    is_hex_digit(c) || c == ':' || c == '.'
}

/// The number of characters that `parts` hold together.
pub open spec fn total_length(parts: Seq<Seq<char>>) -> int
    decreases parts.len(),
{
    if parts.len() == 0 {
        0
    } else {
        total_length(parts.drop_last()) + parts.last().len()
    }
}

/// The fields that `parts` hold, each as a sequence of characters.
pub open spec fn field_views(parts: Seq<Vec<char>>) -> Seq<Seq<char>> {
    Seq::new(parts.len(), |i: int| parts[i]@)
}

/// The characters of `text`.
fn characters(text: &str) -> (chars: Vec<char>)
    ensures
        chars@ == text@,
{
    let length = text.unicode_len();
    let mut chars: Vec<char> = Vec::new();
    let mut i: usize = 0;
    while i < length
        invariant
            i <= length,
            length == text@.len(),
            chars@ == text@.take(i as int),
        decreases length - i,
    {
        chars.push(text.get_char(i));
        assert(chars@ =~= text@.take(i + 1));
        i += 1;
    }
    assert(text@.take(length as int) =~= text@);
    chars
}

/// The characters of `chars` from `from` up to `to`.
fn part(chars: &Vec<char>, from: usize, to: usize) -> (piece: Vec<char>)
    requires
        from <= to <= chars.len(),
    ensures
        piece@ == chars@.subrange(from as int, to as int),
{
    let mut piece: Vec<char> = Vec::new();
    let mut i: usize = from;
    while i < to
        invariant
            from <= i <= to <= chars.len(),
            piece@ == chars@.subrange(from as int, i as int),
        decreases to - i,
    {
        piece.push(chars[i]);
        assert(piece@ =~= chars@.subrange(from as int, i + 1));
        i += 1;
    }
    piece
}

/// Splits `chars` at each `separator`.
fn split(chars: &Vec<char>, separator: char) -> (parts: Vec<Vec<char>>)
    ensures
        field_views(parts@) == fields(chars@, separator),
        parts.len() >= 1,
{
    let mut parts: Vec<Vec<char>> = Vec::new();
    let mut current: Vec<char> = Vec::new();
    let mut i: usize = 0;
    assert(chars@.take(0) =~= Seq::<char>::empty());
    assert(field_views(parts@).push(current@) =~= seq![Seq::<char>::empty()]);
    while i < chars.len()
        invariant
            i <= chars.len(),
            fields(chars@.take(i as int), separator) == field_views(parts@).push(current@),
        decreases chars.len() - i,
    {
        let c = chars[i];
        let ghost earlier = field_views(parts@).push(current@);
        let ghost text = chars@.take(i + 1);
        assert(text.drop_last() =~= chars@.take(i as int));
        assert(text.last() == c);
        if c == separator {
            parts.push(current);
            current = Vec::new();
            assert(field_views(parts@) =~= earlier);
            assert(field_views(parts@).push(current@) =~= earlier.push(Seq::empty()));
        } else {
            current.push(c);
            assert(field_views(parts@).push(current@) =~= earlier.drop_last().push(
                earlier.last().push(c),
            ));
        }
        i += 1;
    }
    assert(chars@.take(chars.len() as int) =~= chars@);
    let ghost done = field_views(parts@).push(current@);
    parts.push(current);
    assert(field_views(parts@) =~= done);
    parts
}

/// Whether `c` is one of the digits `0` to `9`.
fn decimal_digit(c: char) -> (ok: bool)
    ensures
        ok == is_decimal_digit(c),
{
    '0' as u32 <= c as u32 && c as u32 <= '9' as u32
}

/// Whether `c` is a digit to the base sixteen.
fn hex_digit(c: char) -> (ok: bool)
    ensures
        ok == is_hex_digit(c),
{
    decimal_digit(c) || ('a' as u32 <= c as u32 && c as u32 <= 'f' as u32) || ('A' as u32
        <= c as u32 && c as u32 <= 'F' as u32)
}

/// Whether `field` writes an octet.
fn octet(field: &Vec<char>) -> (ok: bool)
    ensures
        ok == is_octet(field@),
{
    let length = field.len();
    if length < 1 || length > 3 {
        return false;
    }
    let mut value: u32 = 0;
    let mut i: usize = 0;
    while i < length
        invariant
            i <= length <= 3,
            length == field.len(),
            forall|j: int| 0 <= j < i ==> is_decimal_digit(#[trigger] field@[j]),
            value == decimal_value(field@.take(i as int)),
            i == 0 ==> value == 0,
            i == 1 ==> value <= 9,
            i == 2 ==> value <= 99,
            i == 3 ==> value <= 999,
        decreases length - i,
    {
        let c = field[i];
        if !decimal_digit(c) {
            return false;
        }
        assert(field@.take(i + 1).drop_last() =~= field@.take(i as int));
        value = value * 10 + (c as u32 - '0' as u32);
        i += 1;
    }
    assert(field@.take(length as int) =~= field@);
    if length > 1 && field[0] == '0' {
        return false;
    }
    value <= 255
}

/// Whether `field` is a group of digits to the base sixteen.
fn hex_group(field: &Vec<char>) -> (ok: bool)
    ensures
        ok == is_hex_group(field@),
{
    let length = field.len();
    if length < 1 || length > 4 {
        return false;
    }
    let mut i: usize = 0;
    while i < length
        invariant
            i <= length,
            length == field.len(),
            forall|j: int| 0 <= j < i ==> is_hex_digit(#[trigger] field@[j]),
        decreases length - i,
    {
        if !hex_digit(field[i]) {
            return false;
        }
        i += 1;
    }
    true
}

/// Whether `chars` name an address of version 4.
fn ipv4_address(chars: &Vec<char>) -> (ok: bool)
    ensures
        ok == is_ipv4_address(chars@),
{
    let parts = split(chars, '.');
    if parts.len() != 4 {
        return false;
    }
    let mut i: usize = 0;
    while i < 4
        invariant
            i <= 4,
            parts.len() == 4,
            field_views(parts@) == fields(chars@, '.'),
            forall|j: int| 0 <= j < i ==> is_octet(#[trigger] fields(chars@, '.')[j]),
        decreases 4 - i,
    {
        assert(field_views(parts@)[i as int] == parts@[i as int]@);
        if !octet(&parts[i]) {
            return false;
        }
        i += 1;
    }
    true
}

/// The number of groups that `chars` write, if they are a list of groups.
fn count_groups(chars: &Vec<char>, quad_allowed: bool) -> (count: Option<usize>)
    requires
        chars.len() <= MAX_ADDRESS_LENGTH,
    ensures
        match count {
            Some(count) => group_count(chars@, quad_allowed) == Some(count as int),
            None => group_count(chars@, quad_allowed) is None,
        },
{
    if chars.len() == 0 {
        return Some(0);
    }
    let parts = split(chars, ':');
    let last = parts.len() - 1;
    proof {
        lemma_fields_are_few(chars@, ':');
        assert(field_views(parts@).len() == parts.len());
    }
    let mut i: usize = 0;
    while i < last
        invariant
            i <= last,
            last == parts.len() - 1,
            field_views(parts@) == fields(chars@, ':'),
            forall|j: int| 0 <= j < i ==> is_hex_group(#[trigger] fields(chars@, ':')[j]),
        decreases last - i,
    {
        assert(field_views(parts@)[i as int] == parts@[i as int]@);
        if !hex_group(&parts[i]) {
            return None;
        }
        i += 1;
    }
    assert(field_views(parts@)[last as int] == parts@[last as int]@);
    if hex_group(&parts[last]) {
        Some(last + 1)
    } else if quad_allowed && ipv4_address(&parts[last]) {
        Some(last + 2)
    } else {
        None
    }
}

/// Where the first double colon of `chars` begins, if there is one.
fn find_double_colon(chars: &Vec<char>) -> (at: Option<usize>)
    requires
        chars.len() <= MAX_ADDRESS_LENGTH,
    ensures
        match at {
            Some(at) => double_colon_from(chars@, 0) == at && at + 2 <= chars.len(),
            None => double_colon_from(chars@, 0) == -1,
        },
{
    let mut i: usize = 0;
    while i + 1 < chars.len()
        invariant
            i <= chars.len() <= MAX_ADDRESS_LENGTH,
            double_colon_from(chars@, 0) == double_colon_from(chars@, i as int),
        decreases chars.len() - i,
    {
        if chars[i] == ':' && chars[i + 1] == ':' {
            return Some(i);
        }
        i += 1;
    }
    None
}

/// Whether `chars` name an address of version 6.
fn ipv6_address(chars: &Vec<char>) -> (ok: bool)
    requires
        chars.len() <= MAX_ADDRESS_LENGTH,
    ensures
        ok == is_ipv6_address(chars@),
{
    match find_double_colon(chars) {
        None => match count_groups(chars, true) {
            Some(count) => count == 8,
            None => false,
        },
        Some(at) => {
            let head = part(chars, 0, at);
            let tail = part(chars, at + 2, chars.len());
            match count_groups(&head, false) {
                Some(before) => match count_groups(&tail, true) {
                    Some(after) => before <= 7 && after <= 7 - before,
                    None => false,
                },
                None => false,
            }
        },
    }
}

/// Whether `text` names an IP address, of version 4 or of version 6.
pub fn names_ip_address(text: &str) -> (ok: bool)
    ensures
        ok == is_ip_address(text@),
{
    if text.unicode_len() > MAX_ADDRESS_LENGTH {
        proof {
            if is_ip_address(text@) {
                lemma_addresses_are_short(text@);
            }
        }
        return false;
    }
    let chars = characters(text);
    ipv4_address(&chars) || ipv6_address(&chars)
}

/// One more character either opens a new field, where it is a separator, or
/// lengthens the last field.
pub proof fn lemma_fields_of_push(text: Seq<char>, c: char, separator: char)
    ensures
        fields(text.push(c), separator) == if c == separator {
            fields(text, separator).push(Seq::empty())
        } else {
            fields(text, separator).drop_last().push(fields(text, separator).last().push(c))
        },
{
    assert(text.push(c).drop_last() =~= text);
}

/// A text has one field more than it has separators, so never more fields
/// than characters and one.
pub proof fn lemma_fields_are_few(text: Seq<char>, separator: char)
    ensures
        1 <= fields(text, separator).len() <= text.len() + 1,
    decreases text.len(),
{
    if text.len() > 0 {
        lemma_fields_are_few(text.drop_last(), separator);
    }
}

/// A text is as long as its fields together and the separators between
/// them.
pub proof fn lemma_length_of_fields(text: Seq<char>, separator: char)
    ensures
        fields(text, separator).len() >= 1,
        text.len() == total_length(fields(text, separator)) + fields(text, separator).len() - 1,
    decreases text.len(),
{
    if text.len() == 0 {
        let parts = seq![Seq::<char>::empty()];
        assert(parts.drop_last() =~= Seq::<Seq<char>>::empty());
        assert(total_length(parts.drop_last()) == 0);
    } else {
        lemma_length_of_fields(text.drop_last(), separator);
        let before = fields(text.drop_last(), separator);
        if text.last() == separator {
            assert(before.push(Seq::empty()).drop_last() =~= before);
        } else {
            let grown = before.drop_last().push(before.last().push(text.last()));
            assert(grown.drop_last() =~= before.drop_last());
        }
    }
}

/// Fields of at most four characters each hold together at most four times
/// their number.
proof fn lemma_total_length_of_short_parts(parts: Seq<Seq<char>>)
    requires
        forall|i: int| 0 <= i < parts.len() ==> (#[trigger] parts[i]).len() <= 4,
    ensures
        total_length(parts) <= 4 * parts.len(),
    decreases parts.len(),
{
    if parts.len() > 0 {
        lemma_total_length_of_short_parts(parts.drop_last());
    }
}

/// An address of version 4 has at most fifteen characters.
pub proof fn lemma_ipv4_addresses_are_short(text: Seq<char>)
    requires
        is_ipv4_address(text),
    ensures
        text.len() <= 15,
{
    let parts = fields(text, '.');
    lemma_length_of_fields(text, '.');
    assert(is_octet(parts[0]) && is_octet(parts[1]) && is_octet(parts[2]) && is_octet(parts[3]));
    let three = parts.drop_last();
    let two = three.drop_last();
    let one = two.drop_last();
    assert(total_length(one.drop_last()) == 0);
    assert(total_length(one) == parts[0].len());
    assert(total_length(two) == total_length(one) + parts[1].len());
    assert(total_length(three) == total_length(two) + parts[2].len());
    assert(total_length(parts) == total_length(three) + parts[3].len());
}

/// A list of groups has at most five characters for each group it writes,
/// and five more where it may end in a dotted quad.
pub proof fn lemma_group_lists_are_short(list: Seq<char>, quad_allowed: bool)
    requires
        group_count(list, quad_allowed) is Some,
    ensures
        0 <= group_count(list, quad_allowed)->0,
        list.len() <= 5 * group_count(list, quad_allowed)->0 + 5,
        !quad_allowed ==> list.len() <= 5 * group_count(list, quad_allowed)->0,
{
    if list.len() > 0 {
        let parts = fields(list, ':');
        let last = parts.len() - 1;
        lemma_length_of_fields(list, ':');
        let front = parts.drop_last();
        assert forall|i: int| 0 <= i < front.len() implies (#[trigger] front[i]).len() <= 4 by {
            assert(is_hex_group(parts[i]));
        }
        lemma_total_length_of_short_parts(front);
        if !is_hex_group(parts[last]) {
            lemma_ipv4_addresses_are_short(parts[last]);
        }
    }
}

/// The first double colon from `start` on, where there is one, lies at or
/// after `start` and within the text.
pub proof fn lemma_double_colon_is_within(text: Seq<char>, start: int)
    requires
        0 <= start,
    ensures
        double_colon_from(text, start) == -1 || {
            let at = double_colon_from(text, start);
            &&& start <= at
            &&& at + 2 <= text.len()
            &&& text[at] == ':'
            &&& text[at + 1] == ':'
        },
    decreases text.len() - start,
{
    if start + 1 < text.len() && !(text[start] == ':' && text[start + 1] == ':') {
        lemma_double_colon_is_within(text, start + 1);
    }
}

/// No text that names an address is longer than `MAX_ADDRESS_LENGTH`.
pub proof fn lemma_addresses_are_short(text: Seq<char>)
    requires
        is_ip_address(text),
    ensures
        text.len() <= MAX_ADDRESS_LENGTH,
{
    if is_ipv4_address(text) {
        lemma_ipv4_addresses_are_short(text);
    } else {
        let at = double_colon_from(text, 0);
        lemma_double_colon_is_within(text, 0);
        if at < 0 {
            lemma_group_lists_are_short(text, true);
        } else {
            let head = text.subrange(0, at);
            let tail = text.subrange(at + 2, text.len() as int);
            lemma_group_lists_are_short(head, false);
            lemma_group_lists_are_short(tail, true);
        }
    }
}

/// What holds of the separator and of every character of every field holds
/// of every character of the text.
proof fn lemma_characters_of_fields(
    text: Seq<char>,
    separator: char,
    allowed: spec_fn(char) -> bool,
)
    requires
        allowed(separator),
        forall|j: int, k: int|
            0 <= j < fields(text, separator).len() && 0 <= k < fields(text, separator)[j].len()
                ==> allowed(#[trigger] fields(text, separator)[j][k]),
    ensures
        forall|i: int| 0 <= i < text.len() ==> allowed(#[trigger] text[i]),
    decreases text.len(),
{
    if text.len() > 0 {
        let shorter = text.drop_last();
        let before = fields(shorter, separator);
        let parts = fields(text, separator);
        let end = before.len() - 1;
        lemma_length_of_fields(shorter, separator);
        assert forall|j: int, k: int| 0 <= j < before.len() && 0 <= k < before[j].len() implies allowed(
            #[trigger] before[j][k],
        ) by {
            if text.last() == separator || j < end {
                assert(parts[j] == before[j]);
            } else {
                assert(parts[j] == before[end].push(text.last()));
                assert(parts[j][k] == before[j][k]);
            }
        }
        lemma_characters_of_fields(shorter, separator, allowed);
        if text.last() != separator {
            assert(parts[end] == before[end].push(text.last()));
            assert(parts[end][before[end].len() as int] == text.last());
        }
        assert forall|i: int| 0 <= i < text.len() implies allowed(#[trigger] text[i]) by {
            if i < text.len() - 1 {
                assert(shorter[i] == text[i]);
            }
        }
    }
}

/// An address of version 4 holds decimal digits and dots only.
pub proof fn lemma_characters_of_ipv4_addresses(text: Seq<char>)
    requires
        is_ipv4_address(text),
    ensures
        forall|i: int|
            0 <= i < text.len() ==> is_decimal_digit(#[trigger] text[i]) || text[i] == '.',
{
    let parts = fields(text, '.');
    let allowed = |c: char| is_decimal_digit(c) || c == '.';
    assert forall|j: int, k: int| 0 <= j < parts.len() && 0 <= k < parts[j].len() implies allowed(
        #[trigger] parts[j][k],
    ) by {
        assert(is_octet(parts[j]));
    }
    lemma_characters_of_fields(text, '.', allowed);
}

/// A list of groups holds digits, colons and dots only.
pub proof fn lemma_characters_of_group_lists(list: Seq<char>, quad_allowed: bool)
    requires
        group_count(list, quad_allowed) is Some,
    ensures
        forall|i: int| 0 <= i < list.len() ==> is_address_character(#[trigger] list[i]),
{
    if list.len() > 0 {
        let parts = fields(list, ':');
        let last = parts.len() - 1;
        let allowed = |c: char| is_address_character(c);
        if !is_hex_group(parts[last]) {
            lemma_characters_of_ipv4_addresses(parts[last]);
        }
        assert forall|j: int, k: int| 0 <= j < parts.len() && 0 <= k < parts[j].len() implies allowed(
            #[trigger] parts[j][k],
        ) by {
            if j < last {
                assert(is_hex_group(parts[j]));
            }
        }
        lemma_characters_of_fields(list, ':', allowed);
    }
}

/// A text that names an address holds nothing but digits to the base
/// sixteen, colons and dots.
pub proof fn lemma_characters_of_addresses(text: Seq<char>)
    requires
        is_ip_address(text),
    ensures
        forall|i: int| 0 <= i < text.len() ==> is_address_character(#[trigger] text[i]),
{
    if is_ipv4_address(text) {
        lemma_characters_of_ipv4_addresses(text);
    } else {
        let at = double_colon_from(text, 0);
        lemma_double_colon_is_within(text, 0);
        if at < 0 {
            lemma_characters_of_group_lists(text, true);
        } else {
            let head = text.subrange(0, at);
            let tail = text.subrange(at + 2, text.len() as int);
            lemma_characters_of_group_lists(head, false);
            lemma_characters_of_group_lists(tail, true);
            assert forall|i: int| 0 <= i < text.len() implies is_address_character(
                #[trigger] text[i],
            ) by {
                if i < at {
                    assert(head[i] == text[i]);
                } else if i >= at + 2 {
                    assert(tail[i - at - 2] == text[i]);
                }
            }
        }
    }
}

} // verus!
