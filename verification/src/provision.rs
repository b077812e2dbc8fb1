//! Planning a chunk table: the statements that create it and fill it from
//! the rows of a source table.
//!
//! Nothing here touches a database. The functions return the statements and
//! their arguments; whoever holds the connection runs them in the order given.

use crate::chunker::chunk_count;
use crate::chunker::chunk_text;
use crate::chunker::chunks_of;
use crate::chunker::lemma_chunk_count_positive;
use crate::chunker::texts_of;
use crate::chunker::valid_params;
use crate::chunker::ChunkError;
use vstd::prelude::*;

verus! {

/// One row of the source table: its primary key and, for each chunked
/// column in column order, the text it holds there, if any.
pub struct SourceRow {
    pub primary_key: i32,
    pub texts: Vec<Option<String>>,
}

/// What a source row holds, as plain values.
pub open spec fn cells_of(texts: Seq<Option<String>>) -> Seq<Option<Seq<char>>> {
    Seq::new(
        texts.len(),
        |i: int|
            match texts[i] {
                Some(s) => Some(s@),
                None => None,
            },
    )
}

impl SourceRow {
    /// The primary key and the texts of the row.
    pub open spec fn view(&self) -> (i32, Seq<Option<Seq<char>>>) {
        (self.primary_key, cells_of(self.texts@))
    }
}

/// A fetched row holds text but no key to refer to it by.
#[derive(Debug, Clone, Copy, PartialEq, Eq, Structural)]
pub struct MissingKey {}

/// Whether the row holds text in one of its columns.
pub fn row_has_text(texts: &Vec<Option<String>>) -> (found: bool)
    ensures
        found == has_text(cells_of(texts@)),
{
    let ghost cells = cells_of(texts@);
    let mut c: usize = 0;
    while c < texts.len()
        invariant
            c <= texts@.len(),
            cells == cells_of(texts@),
            forall|j: int| 0 <= j < c ==> (#[trigger] cells[j]) is None,
        decreases texts.len() - c,
    {
        if texts[c].is_some() {
            assert(cells[c as int] is Some);
            return true;
        }
        assert(cells[c as int] is None);
        c = c + 1;
    }
    false
}

/// Makes a source row of a fetched row, whose key may be missing.
///
/// A row with a key is a source row. A row without a key gives nothing to
/// chunk if it holds no text, and is refused if it holds text: its chunks
/// could not refer to it.
pub fn source_row(primary_key: Option<i32>, texts: Vec<Option<String>>) -> (res: Result<
    Option<SourceRow>,
    MissingKey,
>)
    ensures
        res is Err <==> primary_key is None && has_text(cells_of(texts@)),
        res matches Ok(row) ==> match primary_key {
            Some(key) => row matches Some(source) && source.primary_key == key && source.texts
                == texts,
            None => row is None,
        },
{
    match primary_key {
        Some(key) => Ok(Some(SourceRow { primary_key: key, texts })),
        None => {
            if row_has_text(&texts) {
                Err(MissingKey {  })
            } else {
                Ok(None)
            }
        },
    }
}

/// What a vector of source rows holds.
pub open spec fn source_of(rows: Seq<SourceRow>) -> Seq<(i32, Seq<Option<Seq<char>>>)> {
    Seq::new(rows.len(), |i: int| rows[i]@)
}

/// One insert into the chunk table: the statement, and the two values bound
/// to its placeholders.
pub struct ChunkInsert {
    pub sql: String,
    pub original_id: i32,
    pub chunk: String,
}

impl ChunkInsert {
    /// The source row's key and the chunk that the insert stores.
    pub open spec fn view(&self) -> (i32, Seq<char>) {
        (self.original_id, self.chunk@)
    }
}

/// The key and chunk of each insert, in order.
pub open spec fn inserted_rows(inserts: Seq<ChunkInsert>) -> Seq<(i32, Seq<char>)> {
    Seq::new(inserts.len(), |i: int| inserts[i]@)
}

/// Everything that provisioning a chunk table does, in the order in which it
/// is to be done: create the table, run the inserts one by one, report.
pub struct ChunkPlan {
    pub create_sql: String,
    pub inserts: Vec<ChunkInsert>,
    pub message: String,
}

/// The statement that creates the chunk table `schema.table_name`.
pub open spec fn create_table_sql(schema: Seq<char>, table_name: Seq<char>) -> Seq<char> {
    "CREATE TABLE "@ + schema + "."@ + table_name
        + " (\n            id SERIAL PRIMARY KEY,\n            original_id INTEGER,\n            chunk TEXT\n        );"@
}

/// The statement that appends one row to the chunk table `schema.table_name`.
pub open spec fn insert_chunk_sql(schema: Seq<char>, table_name: Seq<char>) -> Seq<char> {
    "INSERT INTO "@ + schema + "."@ + table_name + " (original_id, chunk) VALUES ($1, $2);"@
}

/// The sentence that confirms a finished provisioning.
pub open spec fn chunked_message(input_table: Seq<char>, output_table: Seq<char>) -> Seq<char> {
    "Data from "@ + input_table + " successfully chunked into "@ + output_table
}

/// The rows that one text gives: one per chunk, each with the key of the row
/// the text came from.
pub open spec fn text_rows(id: i32, text: Seq<char>, chunk_size: int, chunk_overlap: int) -> Seq<
    (i32, Seq<char>),
> {
    Seq::new(
        chunks_of(text, chunk_size, chunk_overlap).len(),
        |k: int| (id, chunks_of(text, chunk_size, chunk_overlap)[k]),
    )
}

/// The rows that one column of a source row gives: none where it holds no
/// text.
pub open spec fn cell_rows(
    id: i32,
    cell: Option<Seq<char>>,
    chunk_size: int,
    chunk_overlap: int,
) -> Seq<(i32, Seq<char>)> {
    match cell {
        Some(text) => text_rows(id, text, chunk_size, chunk_overlap),
        None => Seq::empty(),
    }
}

/// The rows that one source row gives: those of its columns, in column order.
pub open spec fn row_rows(
    id: i32,
    cells: Seq<Option<Seq<char>>>,
    chunk_size: int,
    chunk_overlap: int,
) -> Seq<(i32, Seq<char>)>
    decreases cells.len(),
{
    if cells.len() == 0 {
        Seq::empty()
    } else {
        row_rows(id, cells.drop_last(), chunk_size, chunk_overlap) + cell_rows(
            id,
            cells.last(),
            chunk_size,
            chunk_overlap,
        )
    }
}

/// The rows of the chunk table: those of the source rows, in the order in
/// which the source rows were fetched.
pub open spec fn table_rows(
    rows: Seq<(i32, Seq<Option<Seq<char>>>)>,
    chunk_size: int,
    chunk_overlap: int,
) -> Seq<(i32, Seq<char>)>
    decreases rows.len(),
{
    if rows.len() == 0 {
        Seq::empty()
    } else {
        table_rows(rows.drop_last(), chunk_size, chunk_overlap) + row_rows(
            rows.last().0,
            rows.last().1,
            chunk_size,
            chunk_overlap,
        )
    }
}

/// The statement that creates the chunk table `schema.table_name`, with a
/// surrogate key, the key of the source row and the chunk's text. The table
/// has the same three columns whatever columns are chunked.
pub fn create_chunked_table(table_name: &str, columns: Vec<String>, schema: &str) -> (sql: String)
    ensures
        sql@ == create_table_sql(schema@, table_name@),
{
    String::from_str("CREATE TABLE ").concat(schema).concat(".").concat(table_name).concat(
        " (\n            id SERIAL PRIMARY KEY,\n            original_id INTEGER,\n            chunk TEXT\n        );",
    )
}

/// The insert that appends `chunk` to the chunk table `schema.table_name`,
/// under the key of the source row it was cut from.
pub fn insert_chunk_into_table(table_name: &str, chunk: String, original_id: i32, schema: &str) -> (insert:
    ChunkInsert)
    ensures
        insert.sql@ == insert_chunk_sql(schema@, table_name@),
        insert.original_id == original_id,
        insert.chunk == chunk,
{
    let sql = String::from_str("INSERT INTO ").concat(schema).concat(".").concat(table_name).concat(
        " (original_id, chunk) VALUES ($1, $2);",
    );
    ChunkInsert { sql, original_id, chunk }
}

/// Appending one insert appends its row.
proof fn lemma_inserted_push(inserts: Seq<ChunkInsert>, insert: ChunkInsert)
    ensures
        inserted_rows(inserts.push(insert)) == inserted_rows(inserts).push(insert@),
{
    assert(inserted_rows(inserts.push(insert)) =~= inserted_rows(inserts).push(insert@));
}

/// One more column adds the rows of its cell.
proof fn lemma_row_rows_step(
    id: i32,
    cells: Seq<Option<Seq<char>>>,
    c: int,
    chunk_size: int,
    chunk_overlap: int,
)
    requires
        0 <= c < cells.len(),
    ensures
        row_rows(id, cells.take(c + 1), chunk_size, chunk_overlap) == row_rows(
            id,
            cells.take(c),
            chunk_size,
            chunk_overlap,
        ) + cell_rows(id, cells[c], chunk_size, chunk_overlap),
{
    assert(cells.take(c + 1).drop_last() =~= cells.take(c));
}

/// One more source row adds its rows.
proof fn lemma_table_rows_step(
    rows: Seq<(i32, Seq<Option<Seq<char>>>)>,
    r: int,
    chunk_size: int,
    chunk_overlap: int,
)
    requires
        0 <= r < rows.len(),
    ensures
        table_rows(rows.take(r + 1), chunk_size, chunk_overlap) == table_rows(
            rows.take(r),
            chunk_size,
            chunk_overlap,
        ) + row_rows(rows[r].0, rows[r].1, chunk_size, chunk_overlap),
{
    assert(rows.take(r + 1).drop_last() =~= rows.take(r));
}

/// Plans the provisioning of the chunk table `schema.output_table` from the
/// fetched `rows` of `input_table`.
///
/// Fails, before anything is planned, exactly when the chunk size and
/// overlap do not satisfy `0 <= chunk_overlap < chunk_size`. Otherwise the
/// plan creates the table, then inserts the chunks of every text: source rows
/// in the order given, within a row its columns in order, within a text its
/// chunks in order. Each insert carries the key of the row its chunk came
/// from. A column without text gives no insert, so the keys that the
/// inserts carry are the keys of the source rows that hold text, and each
/// key is carried by as many inserts as the texts under it have chunks.
pub fn chunk_table(
    input_table: &str,
    rows: &Vec<SourceRow>,
    chunk_size: i32,
    chunk_overlap: i32,
    output_table: &str,
    schema: &str,
) -> (res: Result<ChunkPlan, ChunkError>)
    ensures
        res is Err <==> !valid_params(chunk_size as int, chunk_overlap as int),
        res is Err ==> res == Err::<ChunkPlan, ChunkError>(ChunkError::OverlapNotBelowSize),
        res matches Ok(plan) ==> {
            &&& plan.create_sql@ == create_table_sql(schema@, output_table@)
            &&& inserted_rows(plan.inserts@) == table_rows(
                source_of(rows@),
                chunk_size as int,
                chunk_overlap as int,
            )
            &&& forall|k: int|
                0 <= k < plan.inserts@.len() ==> (#[trigger] plan.inserts@[k]).sql@
                    == insert_chunk_sql(schema@, output_table@)
            &&& plan.message@ == chunked_message(input_table@, output_table@)
            &&& original_ids(inserted_rows(plan.inserts@)) == keys_with_text(source_of(rows@))
            &&& forall|id: i32|
                rows_for(inserted_rows(plan.inserts@), id) == #[trigger] chunks_for(
                    source_of(rows@),
                    id,
                    chunk_size as int,
                    chunk_overlap as int,
                )
        },
{
    if chunk_overlap < 0 || chunk_overlap >= chunk_size {
        return Err(ChunkError::OverlapNotBelowSize);
    }
    let size: usize = chunk_size as usize;
    let overlap: usize = chunk_overlap as usize;
    let ghost source = source_of(rows@);
    let mut inserts: Vec<ChunkInsert> = Vec::new();
    let mut r: usize = 0;
    proof {
        assert(inserted_rows(inserts@) =~= table_rows(source.take(0), size as int, overlap as int));
    }
    while r < rows.len()
        invariant
            valid_params(size as int, overlap as int),
            source == source_of(rows@),
            r <= rows.len(),
            inserted_rows(inserts@) == table_rows(source.take(r as int), size as int, overlap as int),
            forall|k: int|
                0 <= k < inserts@.len() ==> (#[trigger] inserts@[k]).sql@ == insert_chunk_sql(
                    schema@,
                    output_table@,
                ),
        decreases rows.len() - r,
    {
        let row = &rows[r];
        let ghost id = row.primary_key;
        let ghost cells = cells_of(row.texts@);
        let ghost before_row = inserted_rows(inserts@);
        let mut c: usize = 0;
        proof {
            assert(source[r as int] == (id, cells));
            assert(before_row + row_rows(id, cells.take(0), size as int, overlap as int)
                =~= before_row);
        }
        while c < row.texts.len()
            invariant
                valid_params(size as int, overlap as int),
                c <= row.texts.len(),
                id == row.primary_key,
                cells == cells_of(row.texts@),
                inserted_rows(inserts@) == before_row + row_rows(
                    id,
                    cells.take(c as int),
                    size as int,
                    overlap as int,
                ),
                forall|k: int|
                    0 <= k < inserts@.len() ==> (#[trigger] inserts@[k]).sql@ == insert_chunk_sql(
                        schema@,
                        output_table@,
                    ),
            decreases row.texts.len() - c,
        {
            let ghost before_cell = inserted_rows(inserts@);
            match &row.texts[c] {
                Some(text) => {
                    let chunked = chunk_text(text.as_str(), size, overlap);
                    let chunks = match chunked {
                        Ok(chunks) => chunks,
                        Err(e) => {
                            return Err(e);
                        },
                    };
                    let ghost rows_of_text = text_rows(id, text@, size as int, overlap as int);
                    let mut k: usize = 0;
                    proof {
                        assert(before_cell + rows_of_text.take(0) =~= before_cell);
                    }
                    while k < chunks.len()
                        invariant
                            k <= chunks.len(),
                            id == row.primary_key,
                            texts_of(chunks@) == chunks_of(text@, size as int, overlap as int),
                            rows_of_text == text_rows(id, text@, size as int, overlap as int),
                            inserted_rows(inserts@) == before_cell + rows_of_text.take(k as int),
                            forall|j: int|
                                0 <= j < inserts@.len() ==> (#[trigger] inserts@[j]).sql@
                                    == insert_chunk_sql(schema@, output_table@),
                        decreases chunks.len() - k,
                    {
                        let insert = insert_chunk_into_table(
                            output_table,
                            chunks[k].clone(),
                            row.primary_key,
                            schema,
                        );
                        proof {
                            lemma_inserted_push(inserts@, insert);
                            assert(texts_of(chunks@)[k as int] == chunks@[k as int]@);
                            assert(insert@ == rows_of_text[k as int]);
                            assert((before_cell + rows_of_text.take(k as int)).push(
                                rows_of_text[k as int],
                            ) =~= before_cell + rows_of_text.take(k as int + 1));
                        }
                        inserts.push(insert);
                        k = k + 1;
                    }
                    proof {
                        assert(texts_of(chunks@).len() == chunks@.len());
                        assert(rows_of_text.take(k as int) =~= rows_of_text);
                        assert(cells[c as int] == Some(text@));
                    }
                },
                None => {
                    proof {
                        assert(cells[c as int] == None::<Seq<char>>);
                        assert(before_cell + Seq::<(i32, Seq<char>)>::empty() =~= before_cell);
                    }
                },
            }
            proof {
                lemma_row_rows_step(id, cells, c as int, size as int, overlap as int);
                let cell = cell_rows(id, cells[c as int], size as int, overlap as int);
                let head = row_rows(id, cells.take(c as int), size as int, overlap as int);
                assert(inserted_rows(inserts@) == before_cell + cell);
                assert((before_row + head) + cell =~= before_row + (head + cell));
            }
            c = c + 1;
        }
        proof {
            assert(cells.take(c as int) =~= cells);
            lemma_table_rows_step(source, r as int, size as int, overlap as int);
        }
        r = r + 1;
    }
    proof {
        assert(source.take(r as int) =~= source);
        lemma_original_ids_are_keys_with_text(source, size as int, overlap as int);
        assert forall|id: i32|
            rows_for(inserted_rows(inserts@), id) == #[trigger] chunks_for(
                source,
                id,
                size as int,
                overlap as int,
            ) by {
            lemma_rows_per_key(source, size as int, overlap as int, id);
        }
    }
    let create_sql = create_chunked_table(output_table, Vec::new(), schema);
    let message = String::from_str("Data from ").concat(input_table).concat(
        " successfully chunked into ",
    ).concat(output_table);
    Ok(ChunkPlan { create_sql, inserts, message })
}

/// Whether some row of the chunk table refers to the source row `id`.
pub open spec fn mentions(out: Seq<(i32, Seq<char>)>, id: i32) -> bool {
    exists|k: int| 0 <= k < out.len() && (#[trigger] out[k]).0 == id
}

/// Whether a source row holds text in at least one chunked column.
pub open spec fn has_text(cells: Seq<Option<Seq<char>>>) -> bool {
    exists|c: int| 0 <= c < cells.len() && (#[trigger] cells[c]) is Some
}

/// Whether some source row has the key `id` and holds text.
pub open spec fn keyed_with_text(rows: Seq<(i32, Seq<Option<Seq<char>>>)>, id: i32) -> bool {
    exists|r: int| 0 <= r < rows.len() && (#[trigger] rows[r]).0 == id && has_text(rows[r].1)
}

/// The keys that the rows of a chunk table refer to.
pub open spec fn original_ids(out: Seq<(i32, Seq<char>)>) -> Set<i32> {
    Set::new(|id: i32| mentions(out, id))
}

/// The keys of the source rows that hold text in a chunked column.
pub open spec fn keys_with_text(rows: Seq<(i32, Seq<Option<Seq<char>>>)>) -> Set<i32> {
    Set::new(|id: i32| keyed_with_text(rows, id))
}

/// A key is referred to in two runs of rows put together exactly when it is
/// in one of them.
proof fn lemma_mentions_concat(a: Seq<(i32, Seq<char>)>, b: Seq<(i32, Seq<char>)>, id: i32)
    ensures
        mentions(a + b, id) <==> mentions(a, id) || mentions(b, id),
{
    let ab = a + b;
    if mentions(a, id) {
        let k = choose|k: int| 0 <= k < a.len() && (#[trigger] a[k]).0 == id;
        assert(ab[k].0 == id);
    }
    if mentions(b, id) {
        let k = choose|k: int| 0 <= k < b.len() && (#[trigger] b[k]).0 == id;
        assert(ab[a.len() + k].0 == id);
    }
    if mentions(ab, id) {
        let k = choose|k: int| 0 <= k < ab.len() && (#[trigger] ab[k]).0 == id;
        if k < a.len() {
            assert(a[k].0 == id);
        } else {
            assert(b[k - a.len()].0 == id);
        }
    }
}

/// The rows of one source row all carry its key, and there are some exactly
/// when the source row holds text.
proof fn lemma_row_rows_ids(
    id: i32,
    cells: Seq<Option<Seq<char>>>,
    chunk_size: int,
    chunk_overlap: int,
)
    requires
        valid_params(chunk_size, chunk_overlap),
    ensures
        forall|k: int|
            0 <= k < row_rows(id, cells, chunk_size, chunk_overlap).len() ==> (#[trigger] row_rows(
                id,
                cells,
                chunk_size,
                chunk_overlap,
            )[k]).0 == id,
        row_rows(id, cells, chunk_size, chunk_overlap).len() > 0 <==> has_text(cells),
    decreases cells.len(),
{
    if cells.len() > 0 {
        let head = cells.drop_last();
        lemma_row_rows_ids(id, head, chunk_size, chunk_overlap);
        let cell = cell_rows(id, cells.last(), chunk_size, chunk_overlap);
        match cells.last() {
            Some(text) => {
                lemma_chunk_count_positive(text.len() as int, chunk_size, chunk_overlap);
                assert(cell.len() > 0);
                assert(cells[cells.len() - 1] is Some);
            },
            None => {
                assert(cell.len() == 0);
            },
        }
        if has_text(head) {
            let c = choose|c: int| 0 <= c < head.len() && (#[trigger] head[c]) is Some;
            assert(cells[c] is Some);
        }
        if has_text(cells) {
            let c = choose|c: int| 0 <= c < cells.len() && (#[trigger] cells[c]) is Some;
            if c < head.len() {
                assert(head[c] is Some);
            }
        }
    }
}

/// A key is referred to in the chunk table exactly when a source row with
/// that key holds text.
proof fn lemma_table_rows_ids(
    rows: Seq<(i32, Seq<Option<Seq<char>>>)>,
    chunk_size: int,
    chunk_overlap: int,
    id: i32,
)
    requires
        valid_params(chunk_size, chunk_overlap),
    ensures
        mentions(table_rows(rows, chunk_size, chunk_overlap), id) <==> keyed_with_text(rows, id),
    decreases rows.len(),
{
    if rows.len() > 0 {
        let head = rows.drop_last();
        let last = rows.last();
        let tail = row_rows(last.0, last.1, chunk_size, chunk_overlap);
        lemma_table_rows_ids(head, chunk_size, chunk_overlap, id);
        lemma_row_rows_ids(last.0, last.1, chunk_size, chunk_overlap);
        lemma_mentions_concat(table_rows(head, chunk_size, chunk_overlap), tail, id);
        if mentions(tail, id) {
            let k = choose|k: int| 0 <= k < tail.len() && (#[trigger] tail[k]).0 == id;
            assert(last.0 == id && has_text(last.1));
            assert(rows[rows.len() - 1].0 == id);
        }
        if last.0 == id && has_text(last.1) {
            assert(tail[0].0 == id);
        }
        if keyed_with_text(head, id) {
            let r = choose|r: int|
                0 <= r < head.len() && (#[trigger] head[r]).0 == id && has_text(head[r].1);
            assert(rows[r].0 == id && has_text(rows[r].1));
        }
        if keyed_with_text(rows, id) {
            let r = choose|r: int|
                0 <= r < rows.len() && (#[trigger] rows[r]).0 == id && has_text(rows[r].1);
            if r < head.len() {
                assert(head[r].0 == id && has_text(head[r].1));
            }
        }
    }
}

/// The keys that a provisioned chunk table refers to are the keys of the
/// source rows that hold text in a chunked column: no row with text is left
/// out, and no row of the chunk table refers to anything else.
pub proof fn lemma_original_ids_are_keys_with_text(
    rows: Seq<(i32, Seq<Option<Seq<char>>>)>,
    chunk_size: int,
    chunk_overlap: int,
)
    requires
        valid_params(chunk_size, chunk_overlap),
    ensures
        original_ids(table_rows(rows, chunk_size, chunk_overlap)) == keys_with_text(rows),
{
    assert forall|id: i32|
        mentions(table_rows(rows, chunk_size, chunk_overlap), id) == keyed_with_text(
            rows,
            id,
        ) by {
        lemma_table_rows_ids(rows, chunk_size, chunk_overlap, id);
    }
    assert(original_ids(table_rows(rows, chunk_size, chunk_overlap)) =~= keys_with_text(rows));
}

/// Number of rows of the chunk table that refer to the source row `id`.
pub open spec fn rows_for(out: Seq<(i32, Seq<char>)>, id: i32) -> nat
    decreases out.len(),
{
    if out.len() == 0 {
        0
    } else {
        rows_for(out.drop_last(), id) + if out.last().0 == id {
            1nat
        } else {
            0nat
        }
    }
}

/// Number of chunks of the texts that a source row holds.
pub open spec fn chunks_in_row(
    cells: Seq<Option<Seq<char>>>,
    chunk_size: int,
    chunk_overlap: int,
) -> nat
    decreases cells.len(),
{
    if cells.len() == 0 {
        0
    } else {
        chunks_in_row(cells.drop_last(), chunk_size, chunk_overlap) + match cells.last() {
            Some(text) => chunk_count(text.len() as int, chunk_size, chunk_overlap) as nat,
            None => 0nat,
        }
    }
}

/// Number of chunks of the texts that the source rows with the key `id`
/// hold.
pub open spec fn chunks_for(
    rows: Seq<(i32, Seq<Option<Seq<char>>>)>,
    id: i32,
    chunk_size: int,
    chunk_overlap: int,
) -> nat
    decreases rows.len(),
{
    if rows.len() == 0 {
        0
    } else {
        chunks_for(rows.drop_last(), id, chunk_size, chunk_overlap) + if rows.last().0 == id {
            chunks_in_row(rows.last().1, chunk_size, chunk_overlap)
        } else {
            0nat
        }
    }
}

/// The rows that refer to a key in two runs put together are those of the
/// one and those of the other.
proof fn lemma_rows_for_concat(a: Seq<(i32, Seq<char>)>, b: Seq<(i32, Seq<char>)>, id: i32)
    ensures
        rows_for(a + b, id) == rows_for(a, id) + rows_for(b, id),
    decreases b.len(),
{
    if b.len() == 0 {
        assert(a + b =~= a);
    } else {
        lemma_rows_for_concat(a, b.drop_last(), id);
        assert((a + b).drop_last() =~= a + b.drop_last());
    }
}

/// In a run of rows that all carry one key, that key is referred to by
/// every row and no other key by any.
proof fn lemma_rows_for_one_key(out: Seq<(i32, Seq<char>)>, key: i32, id: i32)
    requires
        forall|k: int| 0 <= k < out.len() ==> (#[trigger] out[k]).0 == key,
    ensures
        rows_for(out, id) == if key == id {
            out.len()
        } else {
            0nat
        },
    decreases out.len(),
{
    if out.len() > 0 {
        let head = out.drop_last();
        assert forall|k: int| 0 <= k < head.len() implies (#[trigger] head[k]).0 == key by {
            assert(head[k] == out[k]);
        }
        lemma_rows_for_one_key(head, key, id);
        assert(out[out.len() - 1].0 == key);
    }
}

/// The rows of one source row refer to its key as often as its texts have
/// chunks, and to no other key.
proof fn lemma_row_rows_count(
    key: i32,
    cells: Seq<Option<Seq<char>>>,
    chunk_size: int,
    chunk_overlap: int,
    id: i32,
)
    requires
        valid_params(chunk_size, chunk_overlap),
    ensures
        rows_for(row_rows(key, cells, chunk_size, chunk_overlap), id) == if key == id {
            chunks_in_row(cells, chunk_size, chunk_overlap)
        } else {
            0nat
        },
    decreases cells.len(),
{
    if cells.len() > 0 {
        let head = row_rows(key, cells.drop_last(), chunk_size, chunk_overlap);
        let cell = cell_rows(key, cells.last(), chunk_size, chunk_overlap);
        lemma_row_rows_count(key, cells.drop_last(), chunk_size, chunk_overlap, id);
        lemma_rows_for_concat(head, cell, id);
        lemma_rows_for_one_key(cell, key, id);
        match cells.last() {
            Some(text) => {
                lemma_chunk_count_positive(text.len() as int, chunk_size, chunk_overlap);
            },
            None => {},
        }
    }
}

/// Each key is referred to in a provisioned chunk table by as many rows as
/// the texts of the source rows with that key have chunks.
pub proof fn lemma_rows_per_key(
    rows: Seq<(i32, Seq<Option<Seq<char>>>)>,
    chunk_size: int,
    chunk_overlap: int,
    id: i32,
)
    requires
        valid_params(chunk_size, chunk_overlap),
    ensures
        rows_for(table_rows(rows, chunk_size, chunk_overlap), id) == chunks_for(
            rows,
            id,
            chunk_size,
            chunk_overlap,
        ),
    decreases rows.len(),
{
    if rows.len() > 0 {
        let last = rows.last();
        lemma_rows_per_key(rows.drop_last(), chunk_size, chunk_overlap, id);
        lemma_row_rows_count(last.0, last.1, chunk_size, chunk_overlap, id);
        lemma_rows_for_concat(
            table_rows(rows.drop_last(), chunk_size, chunk_overlap),
            row_rows(last.0, last.1, chunk_size, chunk_overlap),
            id,
        );
    }
}

} // verus!
