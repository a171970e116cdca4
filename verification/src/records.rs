//! How each kind of entity is laid out as a record of fields, with the
//! proofs that a record reads back as the entity it was written from and
//! that an entity is written in one way only.

use vstd::prelude::*;
use vstd::bytes::lemma_auto_spec_u64_to_from_le_bytes;
use vstd::utf8::encode_utf8;
use crate::entities::{lines_view, names_distinct, texts};
use crate::entities::{Client, ClientView, Order, OrderView, Products, Supplier, SupplierView};
use crate::fields::{Field, FieldView, all_encodable, field_views, fields_bytes, parse_fields};
use crate::fields::{lemma_fields_bytes_add, lemma_fields_bytes_push, lemma_fields_canonical};
use crate::fields::lemma_fields_round_trip;
use crate::fields::{HEAD, field_bytes, parse, put_text, put_word};

verus! {

/// The word of a field that is a word.
pub open spec fn word_of(f: FieldView) -> u64 {
    match f {
        FieldView::Word(w) => w,
        FieldView::Text(_) => 0,
    }
}

/// The text of a field that is a text.
pub open spec fn text_of(f: FieldView) -> Seq<char> {
    match f {
        FieldView::Word(_) => Seq::empty(),
        FieldView::Text(t) => t,
    }
}

/// Identifiers as fields: a word each.
pub open spec fn words(ids: Seq<u64>) -> Seq<FieldView> {
    Seq::new(ids.len(), |i: int| FieldView::Word(ids[i]))
}

/// Strings as fields: a text each.
pub open spec fn text_fields(items: Seq<Seq<char>>) -> Seq<FieldView> {
    Seq::new(items.len(), |i: int| FieldView::Text(items[i]))
}

/// Product lines as fields: for each line its name, then its quantity.
pub open spec fn line_fields(lines: Seq<(Seq<char>, u64)>) -> Seq<FieldView> {
    Seq::new(
        2 * lines.len(),
        |i: int|
            if i % 2 == 0 {
                FieldView::Text(lines[i / 2].0)
            } else {
                FieldView::Word(lines[i / 2].1)
            },
    )
}

/// An optional number as two fields: whether it is there, and its value
/// (zero where it is not).
pub open spec fn maybe_fields(v: Option<u64>) -> Seq<FieldView> {
    match v {
        None => seq![FieldView::Word(0), FieldView::Word(0)],
        Some(x) => seq![FieldView::Word(1), FieldView::Word(x)],
    }
}

/// A truth value as a field: the word one or zero.
pub open spec fn flag_field(b: bool) -> FieldView {
    FieldView::Word(if b { 1 } else { 0 })
}

/// The optional number that two fields stand for, if they stand for one.
pub open spec fn read_maybe(flag: FieldView, value: FieldView) -> Option<Option<u64>> {
    if flag == FieldView::Word(0) && value == FieldView::Word(0) {
        Some(None)
    } else if flag == FieldView::Word(1) && value is Word {
        Some(Some(word_of(value)))
    } else {
        None
    }
}

/// The truth value that a field stands for, if it stands for one.
pub open spec fn read_flag(f: FieldView) -> Option<bool> {
    if f == FieldView::Word(0) {
        Some(false)
    } else if f == FieldView::Word(1) {
        Some(true)
    } else {
        None
    }
}

/// Every field is a word.
pub open spec fn all_words(fields: Seq<FieldView>) -> bool {
    forall|i: int| 0 <= i < fields.len() ==> (#[trigger] fields[i]) is Word
}

/// Every field is a text.
pub open spec fn all_texts(fields: Seq<FieldView>) -> bool {
    forall|i: int| 0 <= i < fields.len() ==> (#[trigger] fields[i]) is Text
}

/// The fields are product lines: texts and words in turn, a text first.
pub open spec fn are_lines(fields: Seq<FieldView>) -> bool {
    &&& fields.len() % 2 == 0
    &&& forall|i: int|
        0 <= i < fields.len() ==> if i % 2 == 0 {
            (#[trigger] fields[i]) is Text
        } else {
            fields[i] is Word
        }
}

/// The words of the fields.
pub open spec fn read_words(fields: Seq<FieldView>) -> Seq<u64> {
    Seq::new(fields.len(), |i: int| word_of(fields[i]))
}

/// The texts of the fields.
pub open spec fn read_texts(fields: Seq<FieldView>) -> Seq<Seq<char>> {
    Seq::new(fields.len(), |i: int| text_of(fields[i]))
}

/// The product lines of the fields.
pub open spec fn read_lines(fields: Seq<FieldView>) -> Seq<(Seq<char>, u64)> {
    Seq::new(fields.len() / 2, |i: int| (text_of(fields[2 * i]), word_of(fields[2 * i + 1])))
}

/// The number of fields of a client before its order identifiers.
pub const CLIENT_HEAD: usize = 7;

/// The number of fields of a supplier before its preferred items.
pub const SUPPLIER_HEAD: usize = 8;

/// The number of fields of an order before its item types.
pub const ORDER_HEAD: usize = 10;

/// A client as fields.
pub open spec fn client_fields(c: ClientView) -> Seq<FieldView> {
    seq![
        FieldView::Word(c.id),
        FieldView::Text(c.name),
        FieldView::Text(c.email),
        FieldView::Text(c.phone),
        FieldView::Word(c.created_at),
    ] + maybe_fields(c.updated_at) + words(c.order_ids)
}

/// The client that the fields stand for, if they stand for one.
pub open spec fn read_client(fields: Seq<FieldView>) -> Option<ClientView> {
    if fields.len() >= CLIENT_HEAD && fields[0] is Word && fields[1] is Text && fields[2] is Text
        && fields[3] is Text && fields[4] is Word && read_maybe(fields[5], fields[6]) is Some
        && all_words(fields.skip(CLIENT_HEAD as int)) {
        Some(
            ClientView {
                id: word_of(fields[0]),
                name: text_of(fields[1]),
                email: text_of(fields[2]),
                phone: text_of(fields[3]),
                created_at: word_of(fields[4]),
                updated_at: read_maybe(fields[5], fields[6]).unwrap(),
                order_ids: read_words(fields.skip(CLIENT_HEAD as int)),
            },
        )
    } else {
        None
    }
}

/// A supplier as fields.
pub open spec fn supplier_fields(s: SupplierView) -> Seq<FieldView> {
    seq![
        FieldView::Word(s.id),
        FieldView::Text(s.name),
        FieldView::Text(s.email),
        FieldView::Text(s.phone),
        FieldView::Word(s.created_at),
    ] + maybe_fields(s.updated_at) + seq![FieldView::Word(s.preferred_items.len() as u64)]
        + text_fields(s.preferred_items) + words(s.order_ids)
}

/// The supplier that the fields stand for, if they stand for one.
pub open spec fn read_supplier(fields: Seq<FieldView>) -> Option<SupplierView> {
    if fields.len() >= SUPPLIER_HEAD && fields[0] is Word && fields[1] is Text && fields[2] is Text
        && fields[3] is Text && fields[4] is Word && read_maybe(fields[5], fields[6]) is Some
        && fields[7] is Word && SUPPLIER_HEAD + word_of(fields[7]) <= fields.len() && all_texts(
        fields.subrange(SUPPLIER_HEAD as int, SUPPLIER_HEAD + word_of(fields[7])),
    ) && all_words(fields.skip(SUPPLIER_HEAD + word_of(fields[7]))) {
        Some(
            SupplierView {
                id: word_of(fields[0]),
                name: text_of(fields[1]),
                email: text_of(fields[2]),
                phone: text_of(fields[3]),
                created_at: word_of(fields[4]),
                updated_at: read_maybe(fields[5], fields[6]).unwrap(),
                preferred_items: read_texts(
                    fields.subrange(SUPPLIER_HEAD as int, SUPPLIER_HEAD + word_of(fields[7])),
                ),
                order_ids: read_words(fields.skip(SUPPLIER_HEAD + word_of(fields[7]))),
            },
        )
    } else {
        None
    }
}

/// An order as fields.
pub open spec fn order_fields(o: OrderView) -> Seq<FieldView> {
    seq![FieldView::Word(o.id), FieldView::Text(o.title), FieldView::Word(o.client_id)]
        + maybe_fields(o.supplier_id) + seq![
        flag_field(o.is_complete),
        FieldView::Word(o.created_at),
    ] + maybe_fields(o.updated_at) + seq![FieldView::Word(o.item_types.len() as u64)]
        + text_fields(o.item_types) + line_fields(o.products)
}

/// The order that the fields stand for, if they stand for one.
pub open spec fn read_order(fields: Seq<FieldView>) -> Option<OrderView> {
    if fields.len() >= ORDER_HEAD && fields[0] is Word && fields[1] is Text && fields[2] is Word
        && read_maybe(fields[3], fields[4]) is Some && read_flag(fields[5]) is Some
        && fields[6] is Word && read_maybe(fields[7], fields[8]) is Some && fields[9] is Word
        && ORDER_HEAD + word_of(fields[9]) <= fields.len() && all_texts(
        fields.subrange(ORDER_HEAD as int, ORDER_HEAD + word_of(fields[9])),
    ) && are_lines(fields.skip(ORDER_HEAD + word_of(fields[9]))) && names_distinct(
        read_lines(fields.skip(ORDER_HEAD + word_of(fields[9]))),
    ) {
        Some(
            OrderView {
                id: word_of(fields[0]),
                title: text_of(fields[1]),
                client_id: word_of(fields[2]),
                supplier_id: read_maybe(fields[3], fields[4]).unwrap(),
                is_complete: read_flag(fields[5]).unwrap(),
                created_at: word_of(fields[6]),
                updated_at: read_maybe(fields[7], fields[8]).unwrap(),
                item_types: read_texts(
                    fields.subrange(ORDER_HEAD as int, ORDER_HEAD + word_of(fields[9])),
                ),
                products: read_lines(fields.skip(ORDER_HEAD + word_of(fields[9]))),
            },
        )
    } else {
        None
    }
}

/// The record of a client.
pub open spec fn client_bytes(c: ClientView) -> Seq<u8> {
    fields_bytes(client_fields(c))
}

/// The record of a supplier.
pub open spec fn supplier_bytes(s: SupplierView) -> Seq<u8> {
    fields_bytes(supplier_fields(s))
}

/// The record of an order.
pub open spec fn order_bytes(o: OrderView) -> Seq<u8> {
    fields_bytes(order_fields(o))
}

/// The client that a record holds, if it holds one.
pub open spec fn bytes_client(bytes: Seq<u8>) -> Option<ClientView> {
    match parse_fields(bytes) {
        Some(fields) => read_client(fields),
        None => None,
    }
}

/// The supplier that a record holds, if it holds one.
pub open spec fn bytes_supplier(bytes: Seq<u8>) -> Option<SupplierView> {
    match parse_fields(bytes) {
        Some(fields) => read_supplier(fields),
        None => None,
    }
}

/// The order that a record holds, if it holds one.
pub open spec fn bytes_order(bytes: Seq<u8>) -> Option<OrderView> {
    match parse_fields(bytes) {
        Some(fields) => read_order(fields),
        None => None,
    }
}

/// An entity that can be written down: its lists are short enough for
/// their lengths to be words, and so are its texts.
pub open spec fn client_writable(c: ClientView) -> bool {
    all_encodable(client_fields(c))
}

/// See `client_writable`.
pub open spec fn supplier_writable(s: SupplierView) -> bool {
    all_encodable(supplier_fields(s)) && s.preferred_items.len() <= u64::MAX
}

/// See `client_writable`. No name stands in two product lines of an order
/// that can be written down.
pub open spec fn order_writable(o: OrderView) -> bool {
    all_encodable(order_fields(o)) && o.item_types.len() <= u64::MAX && names_distinct(o.products)
}

/// A client's fields read back as the client.
pub proof fn lemma_client_fields_round_trip(c: ClientView)
    ensures
        read_client(client_fields(c)) == Some(c),
{
    let fields = client_fields(c);
    assert(fields.skip(CLIENT_HEAD as int) =~= words(c.order_ids));
    assert(read_words(words(c.order_ids)) =~= c.order_ids);
}

/// A supplier's fields read back as the supplier.
pub proof fn lemma_supplier_fields_round_trip(s: SupplierView)
    requires
        s.preferred_items.len() <= u64::MAX,
    ensures
        read_supplier(supplier_fields(s)) == Some(s),
{
    let fields = supplier_fields(s);
    let n = s.preferred_items.len();
    assert(fields.subrange(SUPPLIER_HEAD as int, SUPPLIER_HEAD + n) =~= text_fields(
        s.preferred_items,
    ));
    assert(fields.skip(SUPPLIER_HEAD + n) =~= words(s.order_ids));
    assert(read_texts(text_fields(s.preferred_items)) =~= s.preferred_items);
    assert(read_words(words(s.order_ids)) =~= s.order_ids);
}

/// An order's fields read back as the order.
pub proof fn lemma_order_fields_round_trip(o: OrderView)
    requires
        o.item_types.len() <= u64::MAX,
        names_distinct(o.products),
    ensures
        read_order(order_fields(o)) == Some(o),
{
    let fields = order_fields(o);
    let n = o.item_types.len();
    assert(fields.subrange(ORDER_HEAD as int, ORDER_HEAD + n) =~= text_fields(o.item_types));
    assert(fields.skip(ORDER_HEAD + n) =~= line_fields(o.products));
    assert(read_texts(text_fields(o.item_types)) =~= o.item_types);
    assert(read_lines(line_fields(o.products)) =~= o.products);
}

/// A client's record reads back as the client.
pub proof fn lemma_client_round_trip(c: ClientView)
    requires
        client_writable(c),
    ensures
        bytes_client(client_bytes(c)) == Some(c),
{
    lemma_fields_round_trip(client_fields(c));
    lemma_client_fields_round_trip(c);
}

/// A supplier's record reads back as the supplier.
pub proof fn lemma_supplier_round_trip(s: SupplierView)
    requires
        supplier_writable(s),
    ensures
        bytes_supplier(supplier_bytes(s)) == Some(s),
{
    lemma_fields_round_trip(supplier_fields(s));
    lemma_supplier_fields_round_trip(s);
}

/// An order's record reads back as the order.
pub proof fn lemma_order_round_trip(o: OrderView)
    requires
        order_writable(o),
    ensures
        bytes_order(order_bytes(o)) == Some(o),
{
    lemma_fields_round_trip(order_fields(o));
    lemma_order_fields_round_trip(o);
}

/// The fields that a client was read from are the client's fields.
pub proof fn lemma_client_fields_canonical(fields: Seq<FieldView>)
    requires
        read_client(fields) is Some,
    ensures
        client_fields(read_client(fields).unwrap()) == fields,
{
}

/// The fields that a supplier was read from are the supplier's fields.
pub proof fn lemma_supplier_fields_canonical(fields: Seq<FieldView>)
    requires
        read_supplier(fields) is Some,
    ensures
        supplier_fields(read_supplier(fields).unwrap()) == fields,
{
}

/// The fields that an order was read from are the order's fields.
pub proof fn lemma_order_fields_canonical(fields: Seq<FieldView>)
    requires
        read_order(fields) is Some,
    ensures
        order_fields(read_order(fields).unwrap()) == fields,
{
}

/// The record that a client was read from is the client's record: a client
/// has one record, and a record holds one client.
pub proof fn lemma_client_canonical(bytes: Seq<u8>)
    requires
        bytes_client(bytes) is Some,
    ensures
        client_bytes(bytes_client(bytes).unwrap()) == bytes,
        client_writable(bytes_client(bytes).unwrap()),
{
    lemma_fields_canonical(bytes);
    lemma_client_fields_canonical(parse_fields(bytes).unwrap());
}

/// The record that a supplier was read from is the supplier's record.
pub proof fn lemma_supplier_canonical(bytes: Seq<u8>)
    requires
        bytes_supplier(bytes) is Some,
    ensures
        supplier_bytes(bytes_supplier(bytes).unwrap()) == bytes,
        supplier_writable(bytes_supplier(bytes).unwrap()),
{
    lemma_fields_canonical(bytes);
    lemma_supplier_fields_canonical(parse_fields(bytes).unwrap());
}

/// The record that an order was read from is the order's record.
pub proof fn lemma_order_canonical(bytes: Seq<u8>)
    requires
        bytes_order(bytes) is Some,
    ensures
        order_bytes(bytes_order(bytes).unwrap()) == bytes,
        order_writable(bytes_order(bytes).unwrap()),
{
    lemma_fields_canonical(bytes);
    lemma_order_fields_canonical(parse_fields(bytes).unwrap());
}

/// The number of bytes that a list of strings takes as fields.
pub open spec fn texts_len(items: Seq<Seq<char>>) -> int
    decreases items.len(),
{
    if items.len() == 0 {
        0
    } else {
        texts_len(items.drop_last()) + HEAD + encode_utf8(items.last()).len()
    }
}

/// The number of bytes that product lines take as fields.
pub open spec fn lines_len(lines: Seq<(Seq<char>, u64)>) -> int
    decreases lines.len(),
{
    if lines.len() == 0 {
        0
    } else {
        lines_len(lines.drop_last()) + 2 * HEAD + encode_utf8(lines.last().0).len()
    }
}

/// The number of bytes of a client's record.
pub open spec fn client_len(c: ClientView) -> int {
    CLIENT_HEAD * HEAD + encode_utf8(c.name).len() + encode_utf8(c.email).len() + encode_utf8(
        c.phone,
    ).len() + HEAD * c.order_ids.len()
}

/// The number of bytes of a supplier's record.
pub open spec fn supplier_len(s: SupplierView) -> int {
    SUPPLIER_HEAD * HEAD + encode_utf8(s.name).len() + encode_utf8(s.email).len() + encode_utf8(
        s.phone,
    ).len() + texts_len(s.preferred_items) + HEAD * s.order_ids.len()
}

/// The number of bytes of an order's record.
pub open spec fn order_len(o: OrderView) -> int {
    ORDER_HEAD * HEAD + encode_utf8(o.title).len() + texts_len(o.item_types) + lines_len(
        o.products,
    )
}

/// The length of one field's bytes.
pub proof fn lemma_field_len(f: FieldView)
    ensures
        field_bytes(f).len() == match f {
            FieldView::Word(_) => HEAD as int,
            FieldView::Text(t) => HEAD + encode_utf8(t).len(),
        },
{
    lemma_auto_spec_u64_to_from_le_bytes();
}

/// The length of the bytes of a list of identifiers.
pub proof fn lemma_words_len(ids: Seq<u64>)
    ensures
        fields_bytes(words(ids)).len() == HEAD * ids.len(),
    decreases ids.len(),
{
    if ids.len() > 0 {
        let front = ids.drop_last();
        assert(words(ids) =~= words(front).push(FieldView::Word(ids.last())));
        lemma_fields_bytes_push(words(front), FieldView::Word(ids.last()));
        lemma_field_len(FieldView::Word(ids.last()));
        lemma_words_len(front);
    }
}

/// The length of the bytes of a list of strings.
pub proof fn lemma_texts_len(items: Seq<Seq<char>>)
    ensures
        fields_bytes(text_fields(items)).len() == texts_len(items),
    decreases items.len(),
{
    if items.len() > 0 {
        let front = items.drop_last();
        assert(text_fields(items) =~= text_fields(front).push(FieldView::Text(items.last())));
        lemma_fields_bytes_push(text_fields(front), FieldView::Text(items.last()));
        lemma_field_len(FieldView::Text(items.last()));
        lemma_texts_len(front);
    }
}

/// The length of the bytes of product lines.
pub proof fn lemma_lines_len(lines: Seq<(Seq<char>, u64)>)
    ensures
        fields_bytes(line_fields(lines)).len() == lines_len(lines),
    decreases lines.len(),
{
    if lines.len() > 0 {
        let front = lines.drop_last();
        let name = FieldView::Text(lines.last().0);
        let quantity = FieldView::Word(lines.last().1);
        assert(line_fields(lines) =~= line_fields(front).push(name).push(quantity));
        lemma_fields_bytes_push(line_fields(front), name);
        lemma_fields_bytes_push(line_fields(front).push(name), quantity);
        lemma_field_len(name);
        lemma_field_len(quantity);
        lemma_lines_len(front);
    }
}

/// The length of the bytes of a few fields written out one by one.
proof fn lemma_head_len(head: Seq<FieldView>)
    ensures
        head.len() == 0 ==> fields_bytes(head).len() == 0,
        head.len() > 0 ==> fields_bytes(head).len() == fields_bytes(head.drop_last()).len()
            + field_bytes(head.last()).len(),
{
    if head.len() > 0 {
        assert(head =~= head.drop_last().push(head.last()));
        lemma_fields_bytes_push(head.drop_last(), head.last());
    }
}

/// The length of the bytes of an optional number.
pub proof fn lemma_maybe_len(v: Option<u64>)
    ensures
        fields_bytes(maybe_fields(v)).len() == 2 * HEAD,
{
    let fields = maybe_fields(v);
    lemma_head_len(fields);
    lemma_head_len(fields.drop_last());
    lemma_field_len(fields[0]);
    lemma_field_len(fields[1]);
}

/// A client's record has the length that `client_len` gives.
pub proof fn lemma_client_len(c: ClientView)
    ensures
        client_bytes(c).len() == client_len(c),
{
    let head = seq![
        FieldView::Word(c.id),
        FieldView::Text(c.name),
        FieldView::Text(c.email),
        FieldView::Text(c.phone),
        FieldView::Word(c.created_at),
    ];
    lemma_fields_bytes_add(head + maybe_fields(c.updated_at), words(c.order_ids));
    lemma_fields_bytes_add(head, maybe_fields(c.updated_at));
    lemma_maybe_len(c.updated_at);
    lemma_words_len(c.order_ids);
    let h4 = head.drop_last();
    let h3 = h4.drop_last();
    let h2 = h3.drop_last();
    let h1 = h2.drop_last();
    lemma_head_len(head);
    lemma_head_len(h4);
    lemma_head_len(h3);
    lemma_head_len(h2);
    lemma_head_len(h1);
    lemma_field_len(head[0]);
    lemma_field_len(head[1]);
    lemma_field_len(head[2]);
    lemma_field_len(head[3]);
    lemma_field_len(head[4]);
}

/// A supplier's record has the length that `supplier_len` gives.
pub proof fn lemma_supplier_len(s: SupplierView)
    ensures
        supplier_bytes(s).len() == supplier_len(s),
{
    let head = seq![
        FieldView::Word(s.id),
        FieldView::Text(s.name),
        FieldView::Text(s.email),
        FieldView::Text(s.phone),
        FieldView::Word(s.created_at),
    ];
    let count = seq![FieldView::Word(s.preferred_items.len() as u64)];
    lemma_fields_bytes_add(
        head + maybe_fields(s.updated_at) + count + text_fields(s.preferred_items),
        words(s.order_ids),
    );
    lemma_fields_bytes_add(
        head + maybe_fields(s.updated_at) + count,
        text_fields(s.preferred_items),
    );
    lemma_fields_bytes_add(head + maybe_fields(s.updated_at), count);
    lemma_fields_bytes_add(head, maybe_fields(s.updated_at));
    lemma_maybe_len(s.updated_at);
    lemma_words_len(s.order_ids);
    lemma_texts_len(s.preferred_items);
    lemma_head_len(count);
    lemma_field_len(count[0]);
    let h4 = head.drop_last();
    let h3 = h4.drop_last();
    let h2 = h3.drop_last();
    let h1 = h2.drop_last();
    lemma_head_len(head);
    lemma_head_len(h4);
    lemma_head_len(h3);
    lemma_head_len(h2);
    lemma_head_len(h1);
    lemma_field_len(head[0]);
    lemma_field_len(head[1]);
    lemma_field_len(head[2]);
    lemma_field_len(head[3]);
    lemma_field_len(head[4]);
}

/// An order's record has the length that `order_len` gives.
pub proof fn lemma_order_len(o: OrderView)
    ensures
        order_bytes(o).len() == order_len(o),
{
    let head = seq![FieldView::Word(o.id), FieldView::Text(o.title), FieldView::Word(o.client_id)];
    let mid = seq![flag_field(o.is_complete), FieldView::Word(o.created_at)];
    let count = seq![FieldView::Word(o.item_types.len() as u64)];
    let a = head + maybe_fields(o.supplier_id);
    let b = a + mid;
    let c = b + maybe_fields(o.updated_at);
    let d = c + count;
    let e = d + text_fields(o.item_types);
    lemma_fields_bytes_add(e, line_fields(o.products));
    lemma_fields_bytes_add(d, text_fields(o.item_types));
    lemma_fields_bytes_add(c, count);
    lemma_fields_bytes_add(b, maybe_fields(o.updated_at));
    lemma_fields_bytes_add(a, mid);
    lemma_fields_bytes_add(head, maybe_fields(o.supplier_id));
    lemma_maybe_len(o.supplier_id);
    lemma_maybe_len(o.updated_at);
    lemma_texts_len(o.item_types);
    lemma_lines_len(o.products);
    lemma_head_len(count);
    lemma_field_len(count[0]);
    lemma_head_len(mid);
    lemma_head_len(mid.drop_last());
    lemma_field_len(mid[0]);
    lemma_field_len(mid[1]);
    let h2 = head.drop_last();
    let h1 = h2.drop_last();
    lemma_head_len(head);
    lemma_head_len(h2);
    lemma_head_len(h1);
    lemma_head_len(h1.drop_last());
    lemma_field_len(head[0]);
    lemma_field_len(head[1]);
    lemma_field_len(head[2]);
}

fn add_word(
    out: &mut Vec<u8>,
    Ghost(done): Ghost<Seq<FieldView>>,
    w: u64,
) -> (now: Ghost<Seq<FieldView>>)
    requires
        old(out)@ == fields_bytes(done),
        all_encodable(done),
    ensures
        final(out)@ == fields_bytes(now@),
        now@ == done.push(FieldView::Word(w)),
        all_encodable(now@),
{
    put_word(out, w);
    proof {
        lemma_fields_bytes_push(done, FieldView::Word(w));
    }
    Ghost(done.push(FieldView::Word(w)))
}

fn add_text(
    out: &mut Vec<u8>,
    Ghost(done): Ghost<Seq<FieldView>>,
    t: &String,
) -> (now: Ghost<Seq<FieldView>>)
    requires
        old(out)@ == fields_bytes(done),
        all_encodable(done),
    ensures
        final(out)@ == fields_bytes(now@),
        now@ == done.push(FieldView::Text(t@)),
        all_encodable(now@),
{
    put_text(out, t);
    proof {
        lemma_fields_bytes_push(done, FieldView::Text(t@));
    }
    Ghost(done.push(FieldView::Text(t@)))
}

fn add_maybe(
    out: &mut Vec<u8>,
    Ghost(done): Ghost<Seq<FieldView>>,
    v: Option<u64>,
) -> (now: Ghost<Seq<FieldView>>)
    requires
        old(out)@ == fields_bytes(done),
        all_encodable(done),
    ensures
        final(out)@ == fields_bytes(now@),
        now@ == done + maybe_fields(v),
        all_encodable(now@),
{
    let (flag, value): (u64, u64) = match v {
        None => (0, 0),
        Some(x) => (1, x),
    };
    let mid = add_word(out, Ghost(done), flag);
    let now = add_word(out, mid, value);
    assert(now@ =~= done + maybe_fields(v));
    now
}

fn add_words(
    out: &mut Vec<u8>,
    Ghost(done): Ghost<Seq<FieldView>>,
    ids: &Vec<u64>,
) -> (now: Ghost<Seq<FieldView>>)
    requires
        old(out)@ == fields_bytes(done),
        all_encodable(done),
    ensures
        final(out)@ == fields_bytes(now@),
        now@ == done + words(ids@),
        all_encodable(now@),
{
    let mut now: Ghost<Seq<FieldView>> = Ghost(done);
    let mut i: usize = 0;
    while i < ids.len()
        invariant
            i <= ids.len(),
            out@ == fields_bytes(now@),
            now@ == done + words(ids@.take(i as int)),
            all_encodable(now@),
        decreases ids.len() - i,
    {
        now = add_word(out, now, ids[i]);
        assert(now@ =~= done + words(ids@.take(i + 1)));
        i += 1;
    }
    assert(ids@.take(ids.len() as int) =~= ids@);
    now
}

fn add_texts(
    out: &mut Vec<u8>,
    Ghost(done): Ghost<Seq<FieldView>>,
    items: &Vec<String>,
) -> (now: Ghost<Seq<FieldView>>)
    requires
        old(out)@ == fields_bytes(done),
        all_encodable(done),
    ensures
        final(out)@ == fields_bytes(now@),
        now@ == done + text_fields(texts(items@)),
        all_encodable(now@),
{
    let mut now: Ghost<Seq<FieldView>> = Ghost(done);
    let mut i: usize = 0;
    while i < items.len()
        invariant
            i <= items.len(),
            out@ == fields_bytes(now@),
            now@ == done + text_fields(texts(items@.take(i as int))),
            all_encodable(now@),
        decreases items.len() - i,
    {
        now = add_text(out, now, &items[i]);
        assert(now@ =~= done + text_fields(texts(items@.take(i + 1))));
        i += 1;
    }
    assert(items@.take(items.len() as int) =~= items@);
    now
}

fn add_lines(
    out: &mut Vec<u8>,
    Ghost(done): Ghost<Seq<FieldView>>,
    products: &Products,
) -> (now: Ghost<Seq<FieldView>>)
    requires
        old(out)@ == fields_bytes(done),
        all_encodable(done),
    ensures
        final(out)@ == fields_bytes(now@),
        now@ == done + line_fields(products@),
        all_encodable(now@),
        names_distinct(products@),
{
    let mut now: Ghost<Seq<FieldView>> = Ghost(done);
    let mut i: usize = 0;
    while i < products.len()
        invariant
            i <= products@.len(),
            out@ == fields_bytes(now@),
            now@ == done + line_fields(products@.take(i as int)),
            all_encodable(now@),
        decreases products@.len() - i,
    {
        now = add_text(out, now, products.name(i));
        now = add_word(out, now, products.quantity(i));
        proof {
            let longer = done + line_fields(products@.take(i + 1));
            assert(now@ =~= longer);
        }
        i += 1;
    }
    assert(products@.take(products@.len() as int) =~= products@);
    now
}

/// Writes a client's record.
pub fn encode_client(c: &Client) -> (bytes: Vec<u8>)
    ensures
        bytes@ == client_bytes(c@),
        client_writable(c@),
{
    let mut out: Vec<u8> = Vec::new();
    let done: Ghost<Seq<FieldView>> = Ghost(Seq::empty());
    let done = add_word(&mut out, done, c.id);
    let done = add_text(&mut out, done, &c.name);
    let done = add_text(&mut out, done, &c.email);
    let done = add_text(&mut out, done, &c.phone);
    let done = add_word(&mut out, done, c.created_at);
    let done = add_maybe(&mut out, done, c.updated_at);
    let done = add_words(&mut out, done, &c.order_ids);
    assert(done@ =~= client_fields(c@));
    out
}

/// Writes a supplier's record.
pub fn encode_supplier(s: &Supplier) -> (bytes: Vec<u8>)
    ensures
        bytes@ == supplier_bytes(s@),
        supplier_writable(s@),
{
    let mut out: Vec<u8> = Vec::new();
    let done: Ghost<Seq<FieldView>> = Ghost(Seq::empty());
    let done = add_word(&mut out, done, s.id);
    let done = add_text(&mut out, done, &s.name);
    let done = add_text(&mut out, done, &s.email);
    let done = add_text(&mut out, done, &s.phone);
    let done = add_word(&mut out, done, s.created_at);
    let done = add_maybe(&mut out, done, s.updated_at);
    let done = add_word(&mut out, done, s.preferred_items.len() as u64);
    let done = add_texts(&mut out, done, &s.preferred_items);
    let done = add_words(&mut out, done, &s.order_ids);
    assert(done@ =~= supplier_fields(s@));
    out
}

/// Writes an order's record.
pub fn encode_order(o: &Order) -> (bytes: Vec<u8>)
    ensures
        bytes@ == order_bytes(o@),
        order_writable(o@),
{
    let mut out: Vec<u8> = Vec::new();
    let done: Ghost<Seq<FieldView>> = Ghost(Seq::empty());
    let done = add_word(&mut out, done, o.id);
    let done = add_text(&mut out, done, &o.title);
    let done = add_word(&mut out, done, o.client_id);
    let done = add_maybe(&mut out, done, o.supplier_id);
    let done = add_word(&mut out, done, if o.is_complete { 1 } else { 0 });
    let done = add_word(&mut out, done, o.created_at);
    let done = add_maybe(&mut out, done, o.updated_at);
    let done = add_word(&mut out, done, o.item_types.len() as u64);
    let done = add_texts(&mut out, done, &o.item_types);
    let done = add_lines(&mut out, done, &o.products);
    assert(done@ =~= order_fields(o@));
    out
}

fn word_at(fields: &Vec<Field>, i: usize) -> (w: Option<u64>)
    requires
        i < fields.len(),
    ensures
        match w {
            Some(x) => fields[i as int]@ == FieldView::Word(x),
            None => fields[i as int]@ is Text,
        },
{
    match &fields[i] {
        Field::Word(x) => Some(*x),
        Field::Text(_) => None,
    }
}

fn text_at(fields: &Vec<Field>, i: usize) -> (t: Option<String>)
    requires
        i < fields.len(),
    ensures
        match t {
            Some(x) => fields[i as int]@ == FieldView::Text(x@),
            None => fields[i as int]@ is Word,
        },
{
    match &fields[i] {
        Field::Word(_) => None,
        Field::Text(x) => Some(x.clone()),
    }
}

fn maybe_at(fields: &Vec<Field>, i: usize) -> (v: Option<Option<u64>>)
    requires
        i + 1 < fields.len(),
    ensures
        v == read_maybe(fields[i as int]@, fields[i + 1]@),
{
    match (word_at(fields, i), word_at(fields, i + 1)) {
        (Some(flag), Some(value)) => {
            if flag == 0 && value == 0 {
                Some(None)
            } else if flag == 1 {
                Some(Some(value))
            } else {
                None
            }
        },
        _ => None,
    }
}

fn flag_at(fields: &Vec<Field>, i: usize) -> (b: Option<bool>)
    requires
        i < fields.len(),
    ensures
        b == read_flag(fields[i as int]@),
{
    match word_at(fields, i) {
        Some(w) => {
            if w == 0 {
                Some(false)
            } else if w == 1 {
                Some(true)
            } else {
                None
            }
        },
        None => None,
    }
}

fn words_from(fields: &Vec<Field>, start: usize) -> (r: Option<Vec<u64>>)
    requires
        start <= fields.len(),
    ensures
        match r {
            Some(v) => all_words(field_views(fields@).skip(start as int)) && v@ == read_words(
                field_views(fields@).skip(start as int),
            ),
            None => !all_words(field_views(fields@).skip(start as int)),
        },
{
    let ghost rest = field_views(fields@).skip(start as int);
    let mut v: Vec<u64> = Vec::new();
    let mut i: usize = start;
    while i < fields.len()
        invariant
            start <= i <= fields.len(),
            rest == field_views(fields@).skip(start as int),
            v.len() == i - start,
            forall|k: int| 0 <= k < i - start ==> rest[k] == FieldView::Word(#[trigger] v[k]),
        decreases fields.len() - i,
    {
        match word_at(fields, i) {
            Some(w) => {
                v.push(w);
            },
            None => {
                assert(rest[i - start] == fields[i as int]@);
                return None;
            },
        }
        i += 1;
    }
    assert(all_words(rest)) by {
        assert forall|k: int| 0 <= k < rest.len() implies (#[trigger] rest[k]) is Word by {
            assert(rest[k] == FieldView::Word(v[k]));
        }
    }
    Some(v)
}

fn texts_between(fields: &Vec<Field>, start: usize, end: usize) -> (r: Option<Vec<String>>)
    requires
        start <= end <= fields.len(),
    ensures
        match r {
            Some(v) => all_texts(field_views(fields@).subrange(start as int, end as int))
                && texts(v@) == read_texts(field_views(fields@).subrange(start as int, end as int)),
            None => !all_texts(field_views(fields@).subrange(start as int, end as int)),
        },
{
    let ghost part = field_views(fields@).subrange(start as int, end as int);
    let mut v: Vec<String> = Vec::new();
    let mut i: usize = start;
    while i < end
        invariant
            start <= i <= end <= fields.len(),
            part == field_views(fields@).subrange(start as int, end as int),
            v.len() == i - start,
            forall|k: int| 0 <= k < i - start ==> part[k] == FieldView::Text((#[trigger] v[k])@),
        decreases end - i,
    {
        match text_at(fields, i) {
            Some(t) => {
                v.push(t);
            },
            None => {
                assert(part[i - start] == fields[i as int]@);
                return None;
            },
        }
        i += 1;
    }
    assert(all_texts(part)) by {
        assert forall|k: int| 0 <= k < part.len() implies (#[trigger] part[k]) is Text by {
            assert(part[k] == FieldView::Text(v[k]@));
        }
    }
    Some(v)
}

fn lines_from(fields: &Vec<Field>, start: usize) -> (r: Option<Vec<(String, u64)>>)
    requires
        start <= fields.len(),
    ensures
        match r {
            Some(v) => are_lines(field_views(fields@).skip(start as int)) && lines_view(v@)
                == read_lines(field_views(fields@).skip(start as int)),
            None => !are_lines(field_views(fields@).skip(start as int)),
        },
{
    let ghost rest = field_views(fields@).skip(start as int);
    if (fields.len() - start) % 2 != 0 {
        return None;
    }
    let mut v: Vec<(String, u64)> = Vec::new();
    let mut i: usize = start;
    while i < fields.len()
        invariant
            start <= i <= fields.len(),
            (fields.len() - start) % 2 == 0,
            (i - start) % 2 == 0,
            rest == field_views(fields@).skip(start as int),
            2 * v.len() == i - start,
            forall|k: int|
                0 <= k < v.len() ==> rest[2 * k] == FieldView::Text((#[trigger] v[k]).0@) && rest[2
                    * k + 1] == FieldView::Word(v[k].1),
        decreases fields.len() - i,
    {
        match (text_at(fields, i), word_at(fields, i + 1)) {
            (Some(name), Some(quantity)) => {
                v.push((name, quantity));
            },
            _ => {
                assert(!are_lines(rest)) by {
                    if are_lines(rest) {
                        assert(rest[i - start] is Text);
                        assert(rest[i - start + 1] is Word);
                    }
                }
                return None;
            },
        }
        i += 2;
    }
    proof {
        assert forall|k: int| 0 <= k < rest.len() implies if k % 2 == 0 {
            (#[trigger] rest[k]) is Text
        } else {
            rest[k] is Word
        } by {
            let j = k / 2;
            assert(v[j] == v[j]);
        }
    }
    Some(v)
}

/// Reads a client's record.
pub fn decode_client(bytes: &[u8]) -> (r: Option<Client>)
    ensures
        match r {
            Some(c) => bytes_client(bytes@) == Some(c@),
            None => bytes_client(bytes@) is None,
        },
{
    let fields = match parse(bytes) {
        Some(fields) => fields,
        None => {
            return None;
        },
    };
    if fields.len() < CLIENT_HEAD {
        return None;
    }
    let id = word_at(&fields, 0);
    let name = text_at(&fields, 1);
    let email = text_at(&fields, 2);
    let phone = text_at(&fields, 3);
    let created_at = word_at(&fields, 4);
    let updated_at = maybe_at(&fields, 5);
    let order_ids = words_from(&fields, CLIENT_HEAD);
    match (id, name, email, phone, created_at, updated_at, order_ids) {
        (
            Some(id),
            Some(name),
            Some(email),
            Some(phone),
            Some(created_at),
            Some(updated_at),
            Some(order_ids),
        ) => Some(Client { id, name, email, phone, order_ids, created_at, updated_at }),
        _ => None,
    }
}

/// Reads a supplier's record.
pub fn decode_supplier(bytes: &[u8]) -> (r: Option<Supplier>)
    ensures
        match r {
            Some(s) => bytes_supplier(bytes@) == Some(s@),
            None => bytes_supplier(bytes@) is None,
        },
{
    let fields = match parse(bytes) {
        Some(fields) => fields,
        None => {
            return None;
        },
    };
    if fields.len() < SUPPLIER_HEAD {
        return None;
    }
    let count = match word_at(&fields, 7) {
        Some(count) => count,
        None => {
            return None;
        },
    };
    if count > (fields.len() - SUPPLIER_HEAD) as u64 {
        return None;
    }
    let end = SUPPLIER_HEAD + count as usize;
    let id = word_at(&fields, 0);
    let name = text_at(&fields, 1);
    let email = text_at(&fields, 2);
    let phone = text_at(&fields, 3);
    let created_at = word_at(&fields, 4);
    let updated_at = maybe_at(&fields, 5);
    let preferred_items = texts_between(&fields, SUPPLIER_HEAD, end);
    let order_ids = words_from(&fields, end);
    match (id, name, email, phone, created_at, updated_at, preferred_items, order_ids) {
        (
            Some(id),
            Some(name),
            Some(email),
            Some(phone),
            Some(created_at),
            Some(updated_at),
            Some(preferred_items),
            Some(order_ids),
        ) => Some(
            Supplier { id, name, email, phone, preferred_items, order_ids, created_at, updated_at },
        ),
        _ => None,
    }
}

/// Reads an order's record.
pub fn decode_order(bytes: &[u8]) -> (r: Option<Order>)
    ensures
        match r {
            Some(o) => bytes_order(bytes@) == Some(o@),
            None => bytes_order(bytes@) is None,
        },
{
    let fields = match parse(bytes) {
        Some(fields) => fields,
        None => {
            return None;
        },
    };
    if fields.len() < ORDER_HEAD {
        return None;
    }
    let count = match word_at(&fields, 9) {
        Some(count) => count,
        None => {
            return None;
        },
    };
    if count > (fields.len() - ORDER_HEAD) as u64 {
        return None;
    }
    let end = ORDER_HEAD + count as usize;
    let id = word_at(&fields, 0);
    let title = text_at(&fields, 1);
    let client_id = word_at(&fields, 2);
    let supplier_id = maybe_at(&fields, 3);
    let is_complete = flag_at(&fields, 5);
    let created_at = word_at(&fields, 6);
    let updated_at = maybe_at(&fields, 7);
    let item_types = texts_between(&fields, ORDER_HEAD, end);
    let products = match lines_from(&fields, end) {
        Some(lines) => Products::from_lines(lines),
        None => None,
    };
    match (
        id,
        title,
        client_id,
        supplier_id,
        is_complete,
        created_at,
        updated_at,
        item_types,
        products,
    ) {
        (
            Some(id),
            Some(title),
            Some(client_id),
            Some(supplier_id),
            Some(is_complete),
            Some(created_at),
            Some(updated_at),
            Some(item_types),
            Some(products),
        ) => Some(
            Order {
                id,
                title,
                client_id,
                supplier_id,
                item_types,
                products,
                is_complete,
                created_at,
                updated_at,
            },
        ),
        _ => None,
    }
}

} // verus!
