use agc::config::source::{ConfigChain, ConfigSource, Mergeable};
use agc::model::Model;

struct FakeSource(Option<i32>);
impl ConfigSource<i32> for FakeSource {
    fn spec_load(&self) -> Option<i32> {
        self.0
    }

    fn load(&self) -> Option<i32> {
        self.0
    }
}

#[derive(Default, PartialEq, Debug, Clone)]
struct Point {
    x: Option<i32>,
    y: Option<i32>,
}

impl Model for Point {
    type M = (Option<i32>, Option<i32>);

    fn model(&self) -> (Option<i32>, Option<i32>) {
        (self.x, self.y)
    }
}

impl Mergeable for Point {
    fn merge_model(
        lower: (Option<i32>, Option<i32>),
        higher: (Option<i32>, Option<i32>),
    ) -> (Option<i32>, Option<i32>) {
        (higher.0.or(lower.0), higher.1.or(lower.1))
    }

    fn merge_from(&mut self, higher: Self) {
        if higher.x.is_some() {
            self.x = higher.x;
        }
        if higher.y.is_some() {
            self.y = higher.y;
        }
    }
}

struct PointSource(Point);
impl ConfigSource<Point> for PointSource {
    fn spec_load(&self) -> Option<(Option<i32>, Option<i32>)> {
        Some(self.0.model())
    }

    fn load(&self) -> Option<Point> {
        Some(self.0.clone())
    }
}

#[test]
fn first_returns_highest_priority_non_empty() {
    let chain = ConfigChain::new(vec![
        Box::new(FakeSource(None)),
        Box::new(FakeSource(Some(2))),
        Box::new(FakeSource(Some(3))),
    ]);
    assert_eq!(chain.first(), Some(2));
}

#[test]
fn first_empty_chain_returns_none() {
    let chain = ConfigChain::<i32>::new(vec![]);
    assert_eq!(chain.first(), None);
}

#[test]
fn first_all_none_returns_none() {
    let chain = ConfigChain::new(vec![
        Box::new(FakeSource(None)),
        Box::new(FakeSource(None)),
    ]);
    assert_eq!(chain.first(), None);
}

#[test]
fn merge_high_priority_fields_override_low() {
    let chain = ConfigChain::new(vec![
        Box::new(PointSource(Point { x: Some(1), y: None })),
        Box::new(PointSource(Point { x: None, y: Some(2) })),
    ]);
    let merged = chain.merge().unwrap();
    assert_eq!(merged, Point { x: Some(1), y: Some(2) });
}

#[test]
fn merge_lower_source_does_not_clobber_higher() {
    let chain = ConfigChain::new(vec![
        Box::new(PointSource(Point { x: Some(1), y: Some(1) })),
        Box::new(PointSource(Point { x: Some(2), y: Some(2) })),
    ]);
    let merged = chain.merge().unwrap();
    assert_eq!(merged, Point { x: Some(1), y: Some(1) });
}

#[test]
fn merge_empty_chain_returns_none() {
    let chain = ConfigChain::<Point>::new(vec![]);
    assert_eq!(chain.merge(), None);
}

#[test]
fn chain_debug_shows_source_count() {
    let chain = ConfigChain::new(vec![Box::new(FakeSource(None)), Box::new(FakeSource(Some(1)))]);
    assert_eq!(chain.debug_string(), "ConfigChain { source_count: 2 }");
    assert!(!chain.is_empty());
}
