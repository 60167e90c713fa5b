//! Model management on the command line: the Hub search query, the tables
//! that list models, and the choice of weights to download.
use vstd::prelude::*;
use crate::cache::{ModelEntry, ModelEntryView, ModelVariant};
use crate::text::{decimal, pad_right_spec, push_decimal, push_padded, push_repeated, repeat_char};

verus! {

/// A model found on the Hugging Face Hub.
pub struct ModelInfo {
    pub id: String,
    pub downloads: u64,
    pub likes: u64,
}

/// What a [`ModelInfo`] holds.
pub struct ModelInfoView {
    pub id: Seq<char>,
    pub downloads: u64,
    pub likes: u64,
}

impl View for ModelInfo {
    type V = ModelInfoView;

    open spec fn view(&self) -> ModelInfoView {
        ModelInfoView { id: self.id@, downloads: self.downloads, likes: self.likes }
    }
}

/// The Hub query for speech recognition models, most downloaded first.
pub open spec fn search_url_spec(query: Option<Seq<char>>, limit: nat) -> Seq<char> {
    "https://huggingface.co/api/models"@
        + "?pipeline_tag=automatic-speech-recognition&sort=downloads&direction=-1&limit="@
        + decimal(limit) + match query {
        Some(q) => "&search="@ + q,
        None => Seq::empty(),
    }
}

/// The Hub query URL for a search; the query text goes in as it is.
pub fn search_url(query: Option<&str>, limit: usize) -> (r: String)
    ensures
        r@ == search_url_spec(crate::paths::opt_view(query), limit as nat),
{
    let mut r = String::from_str("https://huggingface.co/api/models");
    r.append("?pipeline_tag=automatic-speech-recognition&sort=downloads&direction=-1&limit=");
    push_decimal(&mut r, limit as u64);
    match query {
        Some(q) => {
            r.append("&search=");
            r.append(q);
        },
        None => {},
    }
    assert(r@ =~= search_url_spec(crate::paths::opt_view(query), limit as nat));
    r
}

/// One row of the search table.
pub open spec fn search_row(m: ModelInfoView) -> Seq<char> {
    pad_right_spec(m.id, 50) + " "@ + pad_right_spec(decimal(m.downloads as nat), 12) + " "@
        + pad_right_spec(decimal(m.likes as nat), 8) + "\n"@
}

pub open spec fn search_rows(ms: Seq<ModelInfoView>) -> Seq<char>
    decreases ms.len(),
{
    if ms.len() == 0 {
        Seq::empty()
    } else {
        search_rows(ms.drop_last()) + search_row(ms.last())
    }
}

pub open spec fn infos_view(ms: Seq<ModelInfo>) -> Seq<ModelInfoView> {
    ms.map_values(|m: ModelInfo| m@)
}

/// What a search prints: a table of id, downloads and likes under a header
/// and a rule, or a notice when nothing was found.
pub open spec fn search_report(ms: Seq<ModelInfoView>) -> Seq<char> {
    if ms.len() == 0 {
        "No models found.\n"@
    } else {
        pad_right_spec("Model ID"@, 50) + " "@ + pad_right_spec("Downloads"@, 12) + " "@
            + pad_right_spec("Likes"@, 8) + "\n"@ + repeat_char('-', 72) + "\n"@ + search_rows(ms)
    }
}

/// The text a search prints for the models found.
pub fn render_search_results(models: &[ModelInfo]) -> (r: String)
    ensures
        r@ == search_report(infos_view(models@)),
{
    if models.len() == 0 {
        return String::from_str("No models found.\n");
    }
    let mut r = String::new();
    push_padded(&mut r, "Model ID", 50);
    r.append(" ");
    push_padded(&mut r, "Downloads", 12);
    r.append(" ");
    push_padded(&mut r, "Likes", 8);
    r.append("\n");
    push_repeated(&mut r, '-', 72);
    r.append("\n");
    let ghost head = r@;
    let n = models.len();
    let mut i: usize = 0;
    while i < n
        invariant
            i <= n,
            n == models@.len(),
            r@ == head + search_rows(infos_view(models@.subrange(0, i as int))),
        decreases n - i,
    {
        let m = &models[i];
        let ghost before = r@;
        push_padded(&mut r, m.id.as_str(), 50);
        r.append(" ");
        let d = crate::text::decimal_string(m.downloads);
        push_padded(&mut r, d.as_str(), 12);
        r.append(" ");
        let l = crate::text::decimal_string(m.likes);
        push_padded(&mut r, l.as_str(), 8);
        r.append("\n");
        assert(infos_view(models@.subrange(0, i + 1)).drop_last() =~= infos_view(
            models@.subrange(0, i as int),
        ));
        assert(infos_view(models@.subrange(0, i + 1)).last() == models@[i as int]@);
        assert(r@ =~= before + search_row(models@[i as int]@));
        i = i + 1;
    }
    assert(models@.subrange(0, n as int) =~= models@);
    assert(r@ =~= search_report(infos_view(models@)));
    r
}

/// How a weight format is listed.
pub open spec fn variant_name_spec(v: ModelVariant) -> Seq<char> {
    match v {
        ModelVariant::Safetensors => "Safetensors"@,
        ModelVariant::Gguf => "Gguf"@,
    }
}

/// How a weight format is listed, as `{:?}` writes it.
pub fn variant_name(v: ModelVariant) -> (r: &'static str)
    ensures
        r@ == variant_name_spec(v),
{
    match v {
        ModelVariant::Safetensors => "Safetensors",
        ModelVariant::Gguf => "Gguf",
    }
}

/// One row of the table of downloaded models.
pub open spec fn list_row(e: ModelEntryView) -> Seq<char> {
    pad_right_spec(e.model_id, 50) + " "@ + pad_right_spec(variant_name_spec(e.variant), 15) + " "@
        + pad_right_spec(e.downloaded_at, 30) + "\n"@
}

pub open spec fn list_rows(es: Seq<ModelEntryView>) -> Seq<char>
    decreases es.len(),
{
    if es.len() == 0 {
        Seq::empty()
    } else {
        list_rows(es.drop_last()) + list_row(es.last())
    }
}

pub open spec fn entries_view(es: Seq<ModelEntry>) -> Seq<ModelEntryView> {
    es.map_values(|e: ModelEntry| e@)
}

/// What listing the cache prints: a table of id, format and download time
/// under a header and a rule, or a hint when nothing is cached.
pub open spec fn list_report(es: Seq<ModelEntryView>) -> Seq<char> {
    if es.len() == 0 {
        "No models cached. Use `ssrs models download <model_id>` to download one.\n"@
    } else {
        pad_right_spec("Model ID"@, 50) + " "@ + pad_right_spec("Variant"@, 15) + " "@
            + pad_right_spec("Downloaded"@, 30) + "\n"@ + repeat_char('-', 97) + "\n"@ + list_rows(
            es,
        )
    }
}

/// The text listing the cache prints for its entries.
pub fn render_model_list(entries: &[ModelEntry]) -> (r: String)
    ensures
        r@ == list_report(entries_view(entries@)),
{
    if entries.len() == 0 {
        return String::from_str(
            "No models cached. Use `ssrs models download <model_id>` to download one.\n",
        );
    }
    let mut r = String::new();
    push_padded(&mut r, "Model ID", 50);
    r.append(" ");
    push_padded(&mut r, "Variant", 15);
    r.append(" ");
    push_padded(&mut r, "Downloaded", 30);
    r.append("\n");
    push_repeated(&mut r, '-', 97);
    r.append("\n");
    let ghost head = r@;
    let n = entries.len();
    let mut i: usize = 0;
    while i < n
        invariant
            i <= n,
            n == entries@.len(),
            r@ == head + list_rows(entries_view(entries@.subrange(0, i as int))),
        decreases n - i,
    {
        let e = &entries[i];
        let ghost before = r@;
        push_padded(&mut r, e.model_id.as_str(), 50);
        r.append(" ");
        push_padded(&mut r, variant_name(e.variant), 15);
        r.append(" ");
        push_padded(&mut r, e.downloaded_at.as_str(), 30);
        r.append("\n");
        assert(entries_view(entries@.subrange(0, i + 1)).drop_last() =~= entries_view(
            entries@.subrange(0, i as int),
        ));
        assert(entries_view(entries@.subrange(0, i + 1)).last() == entries@[i as int]@);
        assert(r@ =~= before + list_row(entries@[i as int]@));
        i = i + 1;
    }
    assert(entries@.subrange(0, n as int) =~= entries@);
    assert(r@ =~= list_report(entries_view(entries@)));
    r
}

/// The file that holds weights of a format.
pub open spec fn weights_file_spec(v: ModelVariant) -> Seq<char> {
    match v {
        ModelVariant::Safetensors => "model.safetensors"@,
        ModelVariant::Gguf => "model.gguf"@,
    }
}

/// The file that holds weights of a format.
pub fn weights_file(v: ModelVariant) -> (r: &'static str)
    ensures
        r@ == weights_file_spec(v),
{
    match v {
        ModelVariant::Safetensors => "model.safetensors",
        ModelVariant::Gguf => "model.gguf",
    }
}

/// The message when a repository offers neither weights file.
pub open spec fn no_weights_message(model_id: Seq<char>) -> Seq<char> {
    "No compatible weights found in '"@ + model_id
        + "'. Expected model.safetensors or model.gguf."@
}

/// Which weights to download from a repository: the quantized file when it
/// has one, else the full-precision file, else an error.
pub fn choose_weights(model_id: &str, has_gguf: bool, has_safetensors: bool) -> (r: Result<
    ModelVariant,
    String,
>)
    ensures
        match r {
            Ok(v) => (v is Gguf <==> has_gguf) && (v is Safetensors ==> has_safetensors),
            Err(m) => !has_gguf && !has_safetensors && m@ == no_weights_message(model_id@),
        },
{
    if has_gguf {
        Ok(ModelVariant::Gguf)
    } else if has_safetensors {
        Ok(ModelVariant::Safetensors)
    } else {
        let mut m = String::from_str("No compatible weights found in '");
        m.append(model_id);
        m.append("'. Expected model.safetensors or model.gguf.");
        Err(m)
    }
}

/// What removing a model prints.
pub open spec fn removal_message_spec(model_id: Seq<char>, removed: bool) -> Seq<char> {
    if removed {
        "Model '"@ + model_id + "' removed."@
    } else {
        "Model '"@ + model_id + "' not found in cache."@
    }
}

/// What removing a model prints, by whether it was cached.
pub fn removal_message(model_id: &str, removed: bool) -> (r: String)
    ensures
        r@ == removal_message_spec(model_id@, removed),
{
    let mut r = String::from_str("Model '");
    r.append(model_id);
    if removed {
        r.append("' removed.");
    } else {
        r.append("' not found in cache.");
    }
    r
}

/// The rows of a list of models followed by more models are the rows of
/// the list followed by theirs: rows come in the order the models do.
pub proof fn law_search_rows_in_order(a: Seq<ModelInfoView>, b: Seq<ModelInfoView>)
    ensures
        search_rows(a + b) == search_rows(a) + search_rows(b),
    decreases b.len(),
{
    if b.len() == 0 {
        assert(a + b =~= a);
        assert(search_rows(a) + search_rows(b) =~= search_rows(a));
    } else {
        assert((a + b).drop_last() =~= a + b.drop_last());
        assert((a + b).last() == b.last());
        law_search_rows_in_order(a, b.drop_last());
        assert(search_rows(a + b) =~= search_rows(a) + search_rows(b));
    }
}

/// The search table is the header and rule, then exactly one row per model
/// found, in the order found: one more model adds its row at the end.
pub proof fn law_search_table_rows(ms: Seq<ModelInfoView>, m: ModelInfoView)
    ensures
        search_rows(seq![m]) == search_row(m),
        search_rows(ms.push(m)) == search_rows(ms) + search_row(m),
        ms.len() > 0 ==> search_report(ms.push(m)) == search_report(ms) + search_row(m),
{
    assert(seq![m].drop_last() =~= Seq::<ModelInfoView>::empty());
    assert(search_rows(Seq::<ModelInfoView>::empty()) == Seq::<char>::empty());
    assert(Seq::<char>::empty() + search_row(m) =~= search_row(m));
    assert(search_rows(seq![m]) =~= search_row(m));
    assert(ms.push(m) =~= ms + seq![m]);
    law_search_rows_in_order(ms, seq![m]);
    if ms.len() > 0 {
        assert(search_report(ms.push(m)) =~= search_report(ms) + search_row(m));
    }
}

/// The rows of a list of entries followed by more entries are the rows of
/// the list followed by theirs: one row per entry, in order.
pub proof fn law_list_rows_in_order(a: Seq<ModelEntryView>, b: Seq<ModelEntryView>)
    ensures
        list_rows(a + b) == list_rows(a) + list_rows(b),
    decreases b.len(),
{
    if b.len() == 0 {
        assert(a + b =~= a);
        assert(list_rows(a) + list_rows(b) =~= list_rows(a));
    } else {
        assert((a + b).drop_last() =~= a + b.drop_last());
        assert((a + b).last() == b.last());
        law_list_rows_in_order(a, b.drop_last());
        assert(list_rows(a + b) =~= list_rows(a) + list_rows(b));
    }
}

/// The listing is the header and rule, then exactly one row per cached
/// model, in order: one more entry adds its row at the end.
pub proof fn law_model_list_rows(es: Seq<ModelEntryView>, e: ModelEntryView)
    ensures
        list_rows(seq![e]) == list_row(e),
        list_rows(es.push(e)) == list_rows(es) + list_row(e),
        es.len() > 0 ==> list_report(es.push(e)) == list_report(es) + list_row(e),
{
    assert(seq![e].drop_last() =~= Seq::<ModelEntryView>::empty());
    assert(list_rows(Seq::<ModelEntryView>::empty()) == Seq::<char>::empty());
    assert(Seq::<char>::empty() + list_row(e) =~= list_row(e));
    assert(list_rows(seq![e]) =~= list_row(e));
    assert(es.push(e) =~= es + seq![e]);
    law_list_rows_in_order(es, seq![e]);
    if es.len() > 0 {
        assert(list_report(es.push(e)) =~= list_report(es) + list_row(e));
    }
}

proof fn lemma_search_rows_alt(ms: Seq<ModelInfoView>)
    ensures
        search_rows(ms) == ms.map_values(|m: ModelInfoView| search_row(m)).flatten_alt(),
    decreases ms.len(),
{
    if ms.len() > 0 {
        lemma_search_rows_alt(ms.drop_last());
        assert(ms.drop_last().map_values(|m: ModelInfoView| search_row(m)) =~= ms.map_values(
            |m: ModelInfoView| search_row(m),
        ).drop_last());
    }
}

/// The search table's body is each model's row, one after the other, in
/// the order the models were found.
pub proof fn law_search_rows_are_each_row(ms: Seq<ModelInfoView>)
    ensures
        search_rows(ms) == ms.map_values(|m: ModelInfoView| search_row(m)).flatten(),
{
    lemma_search_rows_alt(ms);
    ms.map_values(|m: ModelInfoView| search_row(m)).lemma_flatten_and_flatten_alt_are_equivalent();
}

proof fn lemma_list_rows_alt(es: Seq<ModelEntryView>)
    ensures
        list_rows(es) == es.map_values(|e: ModelEntryView| list_row(e)).flatten_alt(),
    decreases es.len(),
{
    if es.len() > 0 {
        lemma_list_rows_alt(es.drop_last());
        assert(es.drop_last().map_values(|e: ModelEntryView| list_row(e)) =~= es.map_values(
            |e: ModelEntryView| list_row(e),
        ).drop_last());
    }
}

/// The listing's body is each cached model's row, one after the other, in
/// the order of the entries.
pub proof fn law_list_rows_are_each_row(es: Seq<ModelEntryView>)
    ensures
        list_rows(es) == es.map_values(|e: ModelEntryView| list_row(e)).flatten(),
{
    lemma_list_rows_alt(es);
    es.map_values(|e: ModelEntryView| list_row(e)).lemma_flatten_and_flatten_alt_are_equivalent();
}

} // verus!
