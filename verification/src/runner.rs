//! Many pipelines at once: which files of a directory describe pipelines,
//! which names they go by, and which of a batch of files come to run.

use crate::pipeline::{logging_root_of, pipeline_of, ParseError, Pipeline, PipelineView};
use crate::text::views;
use crate::utils::{
    file_stem, is_plumber_file, is_plumber_file_name, stem_of, PlumberFile, PlumberFileError,
};
use vstd::prelude::*;

verus! {

/// Those of `file_names` that are taken for pipeline files, in the order given.
pub open spec fn plumber_files_of(file_names: Seq<Seq<char>>, any_case: bool) -> Seq<Seq<char>> {
    file_names.filter(|name: Seq<char>| is_plumber_file_name(name, any_case))
}

/// The names that the pipeline files among `file_names` give their pipelines
/// by their own names: the stems of those taken for pipeline files, whatever
/// the case of their extension.
pub open spec fn pipeline_names_of(file_names: Seq<Seq<char>>) -> Seq<Seq<char>> {
    plumber_files_of(file_names, true).map_values(|name: Seq<char>| stem_of(name))
}

/// Those of `file_names` that are taken for pipeline files, in the order given.
pub fn plumber_files(file_names: &Vec<String>, any_case: bool) -> (files: Vec<String>)
    ensures
        views(files@) == plumber_files_of(views(file_names@), any_case),
{
    let ghost pred = |name: Seq<char>| is_plumber_file_name(name, any_case);
    let ghost all = views(file_names@);
    let mut files: Vec<String> = Vec::new();
    let mut i: usize = 0;
    proof {
        reveal(Seq::filter);
        assert(all.take(0) =~= Seq::<Seq<char>>::empty());
        assert(views(files@) =~= all.take(0).filter(pred));
    }
    while i < file_names.len()
        invariant
            i <= file_names.len(),
            all == views(file_names@),
            pred == |name: Seq<char>| is_plumber_file_name(name, any_case),
            views(files@) == all.take(i as int).filter(pred),
        decreases file_names.len() - i,
    {
        let ghost before = views(files@);
        proof {
            reveal(Seq::filter);
            assert(all.take(i + 1).drop_last() =~= all.take(i as int));
            assert(all.take(i + 1).last() == file_names@[i as int]@);
        }
        if is_plumber_file(file_names[i].as_str(), any_case) {
            files.push(file_names[i].clone());
            assert(views(files@) =~= before.push(file_names@[i as int]@));
        }
        i += 1;
    }
    assert(all.take(file_names@.len() as int) =~= all);
    files
}

/// The names of the pipelines that the pipeline files among `file_names`
/// describe, going by the files' own names.
pub fn pipeline_names(file_names: &Vec<String>) -> (names: Vec<String>)
    ensures
        views(names@) == pipeline_names_of(views(file_names@)),
{
    let files = plumber_files(file_names, true);
    let mut names: Vec<String> = Vec::new();
    let mut i: usize = 0;
    while i < files.len()
        invariant
            i <= files.len(),
            names.len() == i,
            forall|j: int| 0 <= j < i ==> (#[trigger] names@[j])@ == stem_of(files@[j]@),
        decreases files.len() - i,
    {
        names.push(file_stem(files[i].as_str()));
        i += 1;
    }
    assert(views(names@) =~= views(files@).map_values(|name: Seq<char>| stem_of(name)));
    names
}

/// Why a pipeline file leads to no pipeline.
#[derive(Debug)]
pub enum Skipped {
    /// The file could not be read or understood.
    Load(PlumberFileError),
    /// The file's pipeline text names no pipeline.
    Parse(ParseError),
}

/// What becomes of one file of a batch: its pipeline, or the reason why it
/// is passed over. The other files of the batch have no part in it.
pub open spec fn plan_of(loaded: Result<PlumberFile, PlumberFileError>) -> Result<PipelineView, Skipped> {
    match loaded {
        Ok(file) => match pipeline_of(file.name@, file.config.exec_text@, logging_root_of(file.config)) {
            Ok(pipeline) => Ok(pipeline),
            Err(e) => Err(Skipped::Parse(e)),
        },
        Err(e) => Err(Skipped::Load(e)),
    }
}

/// A decision on one file as plain values.
pub open spec fn plan_view(result: Result<Pipeline, Skipped>) -> Result<PipelineView, Skipped> {
    match result {
        Ok(pipeline) => Ok(pipeline@),
        Err(skipped) => Err(skipped),
    }
}

/// What becomes of one file of a batch.
pub fn plan(loaded: Result<PlumberFile, PlumberFileError>) -> (result: Result<Pipeline, Skipped>)
    ensures
        plan_view(result) == plan_of(loaded),
{
    match loaded {
        Ok(file) => match Pipeline::from_plumber_file(file) {
            Ok(pipeline) => Ok(pipeline),
            Err(e) => Err(Skipped::Parse(e)),
        },
        Err(e) => Err(Skipped::Load(e)),
    }
}

/// What becomes of each file of a batch, in the order given. A file that
/// could not be loaded, or whose text names no pipeline, is passed over, and
/// every other file's pipeline is there.
pub fn plan_batch(loaded: Vec<Result<PlumberFile, PlumberFileError>>) -> (plans: Vec<Result<Pipeline, Skipped>>)
    ensures
        plans.len() == loaded.len(),
        forall|i: int| 0 <= i < loaded.len() ==> plan_view(#[trigger] plans@[i]) == plan_of(loaded@[i]),
{
    let mut plans: Vec<Result<Pipeline, Skipped>> = Vec::new();
    for item in iter: loaded
        invariant
            iter.seq() == loaded@,
            plans.len() == iter.index(),
            forall|i: int| 0 <= i < iter.index() ==> plan_view(#[trigger] plans@[i]) == plan_of(loaded@[i]),
    {
        plans.push(plan(item));
    }
    plans
}

} // verus!
