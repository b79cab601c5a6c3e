use std::cell::Cell;

use scout::error::{InvocationError, LoadError};
use scout::loader::{PluginBindings, PluginParser};
use scout::merge::{merge_batches, rank_batches};
use scout::plugin::{Plugin, SearchResult};

struct Item {
    label: &'static str,
    score: usize,
    first: Cell<Option<bool>>,
}

impl SearchResult for Item {
    type Widget = String;

    fn get_score(&self) -> usize {
        self.score
    }

    fn set_first(&self, first: bool) {
        self.first.set(Some(first));
    }

    fn activate(&self) {}

    fn get_result_widget(&self) -> String {
        self.label.to_string()
    }

    fn get_preview_widget(&self) -> String {
        format!("preview of {}", self.label)
    }
}

enum Fixed {
    Returns(Vec<(&'static str, usize)>),
    Fails,
}

impl Plugin for Fixed {
    type Output = Item;

    fn get_results(&self, _query: &str) -> Result<Vec<Item>, InvocationError> {
        match self {
            Fixed::Returns(items) => Ok(items
                .iter()
                .map(|(label, score)| Item { label, score: *score, first: Cell::new(None) })
                .collect()),
            Fixed::Fails => Err(InvocationError::Other("provider failed".to_string())),
        }
    }

    fn get_styles(&self) -> Result<String, InvocationError> {
        Err(InvocationError::DoesNotProvide("styles".to_string()))
    }
}

/// A provider that remembers the query it was asked.
struct Echo {
    seen: Cell<Option<String>>,
}

impl Plugin for &Echo {
    type Output = Item;

    fn get_results(&self, query: &str) -> Result<Vec<Item>, InvocationError> {
        self.seen.set(Some(query.to_string()));
        Ok(vec![])
    }

    fn get_styles(&self) -> Result<String, InvocationError> {
        Ok(String::new())
    }
}

fn load<P>(parser: &mut PluginParser<P>, name: &str, plugin: P) -> Vec<String> {
    let mut bindings = PluginBindings::new();
    bindings.register(name, plugin);
    parser.finish_load(bindings).ok().unwrap()
}

#[test]
fn end_to_end_two_providers_threshold() {
    let mut parser = PluginParser::new();
    load(&mut parser, "a", Fixed::Returns(vec![("Firefox", 18)]));
    load(&mut parser, "b", Fixed::Returns(vec![("Files", 5)]));
    let out = parser.get_results("fi");
    assert_eq!(out.len(), 1);
    assert_eq!(out[0].result.label, "Firefox");
    assert_eq!(out[0].score, 18);
    assert!(out[0].first);
    assert_eq!(out[0].result.first.get(), Some(true));
}

#[test]
fn failing_provider_does_not_hide_others() {
    let mut parser = PluginParser::new();
    load(&mut parser, "a", Fixed::Returns(vec![("Alpha", 10)]));
    load(&mut parser, "broken", Fixed::Fails);
    load(&mut parser, "c", Fixed::Returns(vec![("Gamma", 10), ("Delta", 9)]));
    let out = parser.get_results("");
    let labels: Vec<&str> = out.iter().map(|r| r.result.label).collect();
    assert_eq!(labels, vec!["Alpha", "Gamma", "Delta"]);
    let firsts: Vec<Option<bool>> = out.iter().map(|r| r.result.first.get()).collect();
    assert_eq!(firsts, vec![Some(true), Some(false), Some(false)]);
}

#[test]
fn every_provider_failing_gives_an_empty_list() {
    let mut parser = PluginParser::new();
    load(&mut parser, "x", Fixed::Fails);
    load(&mut parser, "y", Fixed::Fails);
    assert!(parser.get_results("anything").is_empty());
}

#[test]
fn ties_keep_load_order_then_emission_order() {
    let mut parser = PluginParser::new();
    load(&mut parser, "a", Fixed::Returns(vec![("a1", 7), ("a2", 9)]));
    load(&mut parser, "b", Fixed::Returns(vec![("b1", 9), ("b2", 7)]));
    let out = parser.get_results("x");
    let labels: Vec<&str> = out.iter().map(|r| r.result.label).collect();
    assert_eq!(labels, vec!["a2", "b1", "a1", "b2"]);
}

#[test]
fn query_is_normalised_once_for_every_provider() {
    let echo = Echo { seen: Cell::new(None) };
    let mut parser = PluginParser::new();
    load(&mut parser, "echo", &echo);
    assert!(parser.get_results("  Fire FOX ").is_empty());
    assert_eq!(echo.seen.take(), Some("firefox".to_string()));
}

#[test]
fn merge_skips_failed_batches() {
    let batches: Vec<Result<Vec<u8>, InvocationError>> = vec![
        Ok(vec![1, 2]),
        Err(InvocationError::Other("boom".to_string())),
        Ok(vec![]),
        Err(InvocationError::DoesNotProvide("results".to_string())),
        Ok(vec![3]),
    ];
    assert_eq!(merge_batches(batches), vec![1, 2, 3]);
    assert!(merge_batches::<u8>(vec![]).is_empty());
}

#[test]
fn finish_load_without_registration_fails() {
    let mut parser: PluginParser<Fixed> = PluginParser::new();
    load(&mut parser, "a", Fixed::Fails);
    let r = parser.finish_load(PluginBindings::new());
    assert_eq!(r.err(), Some(LoadError::RegistrationFailed));
    assert_eq!(parser.len(), 1);
}

#[test]
fn finish_load_keeps_earlier_providers_and_returns_names() {
    let mut parser = PluginParser::new();
    assert_eq!(load(&mut parser, "first", Fixed::Fails), vec!["first".to_string()]);
    let mut bindings = PluginBindings::new();
    bindings.register("two", Fixed::Fails);
    bindings.register("three", Fixed::Fails);
    bindings.add_stylesheet(".x {}");
    let names = parser.finish_load(bindings).ok().unwrap();
    assert_eq!(names, vec!["two".to_string(), "three".to_string()]);
    assert_eq!(parser.len(), 3);
    assert_eq!(parser.get_styles(), vec![".x {}".to_string()]);
}

#[test]
fn registering_a_name_twice_replaces_it() {
    let mut parser = PluginParser::new();
    let mut bindings = PluginBindings::new();
    bindings.register("app", Fixed::Returns(vec![("Old", 50)]));
    bindings.register("dir", Fixed::Returns(vec![("Dir", 10)]));
    bindings.register("app", Fixed::Returns(vec![("New", 50)]));
    let names = parser.finish_load(bindings).ok().unwrap();
    assert_eq!(names, vec!["app".to_string(), "dir".to_string()]);
    let out = parser.get_results("");
    let labels: Vec<&str> = out.iter().map(|r| r.result.label).collect();
    assert_eq!(labels, vec!["New"]);
}

#[test]
fn rank_batches_merges_then_ranks() {
    let batches: Vec<Result<Vec<(usize, &str)>, InvocationError>> = vec![
        Ok(vec![(18, "Firefox"), (0, "Zero")]),
        Err(InvocationError::Other("down".to_string())),
        Ok(vec![(5, "Files"), (18, "Fish")]),
    ];
    let out: Vec<(usize, bool, &str)> =
        rank_batches(batches, 2).into_iter().map(|r| (r.score, r.first, r.result)).collect();
    assert_eq!(out, vec![(18, true, "Firefox"), (18, false, "Fish")]);
}
