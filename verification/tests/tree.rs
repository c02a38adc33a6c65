use bombadil::tree::Tree::{Branch, Leaf};
use bombadil::tree::{select, PickError, RandomSource, Tree};

#[test]
fn test_prune_non_empty() {
    let actual = Branch {
        branches: vec![
            (1, Leaf { value: 1 }),
            (
                1,
                Branch {
                    branches: vec![
                        (1, Leaf { value: 2 }),
                        (1, Leaf { value: 3 }),
                        (1, Branch { branches: vec![] }),
                    ],
                },
            ),
            (1, Branch { branches: vec![] }),
        ],
    }
    .prune()
    .unwrap();
    let expected = Branch {
        branches: vec![
            (1, Leaf { value: 1 }),
            (
                1,
                Branch {
                    branches: vec![(1, Leaf { value: 2 }), (1, Leaf { value: 3 })],
                },
            ),
        ],
    };
    assert_eq!(actual, expected);
}

#[test]
fn test_prune_empty() {
    let actual = Branch::<()> { branches: vec![] }.prune();
    assert_eq!(actual, None);
}

#[test]
fn test_prune_empty_subtrees() {
    let actual = Branch::<()> {
        branches: vec![
            (1, Branch { branches: vec![] }),
            (1, Branch { branches: vec![] }),
        ],
    }
    .prune();
    assert_eq!(actual, None);
}

#[test]
fn test_filter() {
    let tree = Branch {
        branches: vec![
            (1, Leaf { value: 1 }),
            (1, Leaf { value: 2 }),
            (1, Leaf { value: 3 }),
        ],
    };
    let filtered = tree.filter(&|x: &i32| *x > 1).prune().unwrap();
    let expected = Branch {
        branches: vec![(1, Leaf { value: 2 }), (1, Leaf { value: 3 })],
    };
    assert_eq!(filtered, expected);
}

#[test]
fn test_try_map_ok() {
    let tree = Branch {
        branches: vec![(1, Leaf { value: 1 }), (2, Leaf { value: 2 })],
    };
    let mapped = tree
        .try_map::<String, (), _>(&mut |x: i32| Ok(x.to_string()))
        .unwrap();
    let expected = Branch {
        branches: vec![
            (
                1,
                Leaf {
                    value: "1".to_string(),
                },
            ),
            (
                2,
                Leaf {
                    value: "2".to_string(),
                },
            ),
        ],
    };
    assert_eq!(mapped, expected);
}

#[test]
fn test_try_map_err() {
    let tree = Branch {
        branches: vec![(1, Leaf { value: 1 }), (2, Leaf { value: 2 })],
    };
    let result = tree.try_map::<String, &str, _>(&mut |x: i32| {
        if x == 2 {
            Err("bad")
        } else {
            Ok(x.to_string())
        }
    });
    assert!(result.is_err());
}

#[test]
fn try_map_reports_the_first_failing_leaf_depth_first() {
    let tree = Branch {
        branches: vec![
            (1, Leaf { value: 1 }),
            (
                1,
                Branch {
                    branches: vec![(1, Leaf { value: 2 }), (1, Leaf { value: 3 })],
                },
            ),
            (1, Leaf { value: 4 }),
        ],
    };
    let result = tree.try_map::<i32, i32, _>(&|x: i32| if x >= 3 { Err(x) } else { Ok(x) });
    assert_eq!(result.err(), Some(3));
}

#[test]
fn test_pick_single_leaf() {
    let tree = Leaf { value: 42 };
    let mut rng = RandomSource::new(rand::rng());
    assert_eq!(*tree.pick(&mut rng).unwrap(), 42);
}

#[test]
fn test_pick_weighted() {
    let tree = Branch {
        branches: vec![
            (1000, Leaf { value: "heavy" }),
            (1, Leaf { value: "light" }),
        ],
    };
    let mut rng = RandomSource::new(rand::rng());
    let mut heavy_count = 0;
    for _ in 0..100 {
        if *tree.pick(&mut rng).unwrap() == "heavy" {
            heavy_count += 1;
        }
    }
    // With 1000:1 ratio, heavy should dominate
    assert!(heavy_count > 80);
}

#[test]
fn test_values() {
    let tree = Branch {
        branches: vec![
            (1, Leaf { value: 1 }),
            (2, Leaf { value: 2 }),
            (
                3,
                Branch {
                    branches: vec![(1, Leaf { value: 3 })],
                },
            ),
        ],
    };
    assert_eq!(tree.values(), vec![1, 2, 3]);
}

#[test]
fn values_are_breadth_first() {
    let tree = Branch {
        branches: vec![
            (1, Branch { branches: vec![(1, Leaf { value: 4 }), (1, Leaf { value: 5 })] }),
            (1, Leaf { value: 1 }),
            (1, Branch { branches: vec![(1, Leaf { value: 6 })] }),
            (1, Leaf { value: 2 }),
        ],
    };
    assert_eq!(tree.values(), vec![1, 2, 4, 5, 6]);
}

#[test]
fn pick_refuses_zero_total_weight() {
    let tree = Branch {
        branches: vec![(0, Leaf { value: 1 }), (0, Leaf { value: 2 })],
    };
    let mut rng = RandomSource::new(rand::rng());
    assert_eq!(tree.pick(&mut rng), Err(PickError::ZeroTotalWeight));
}

#[test]
fn pick_never_takes_a_branch_of_weight_zero() {
    let tree = Branch {
        branches: vec![
            (0, Leaf { value: "never" }),
            (3, Branch { branches: vec![(0, Leaf { value: "never" }), (1, Leaf { value: "always" })] }),
        ],
    };
    let mut rng = RandomSource::new(rand::rng());
    for _ in 0..50 {
        assert_eq!(*tree.pick(&mut rng).unwrap(), "always");
    }
}

#[test]
fn filter_then_prune_of_nothing_left_is_none() {
    let tree: Tree<i32> = Branch {
        branches: vec![(1, Leaf { value: 1 }), (1, Branch { branches: vec![(2, Leaf { value: 0 })] })],
    };
    assert_eq!(tree.filter(&|x: &i32| *x > 5).prune(), None);
}

#[test]
fn filter_keeps_weights_and_replaces_leaves() {
    let tree = Branch {
        branches: vec![(3, Leaf { value: 1 }), (7, Leaf { value: 9 })],
    };
    let expected = Branch {
        branches: vec![(3, Branch { branches: vec![] }), (7, Leaf { value: 9 })],
    };
    assert_eq!(tree.filter(&|x: &i32| *x > 5), expected);
}

#[test]
fn prune_keeps_a_leaf() {
    assert_eq!(Leaf { value: 7 }.prune(), Some(Leaf { value: 7 }));
}

#[test]
fn pruning_twice_is_pruning_once() {
    let tree = || Branch {
        branches: vec![
            (1, Branch { branches: vec![(1, Branch { branches: vec![] }), (2, Leaf { value: 'a' })] }),
            (1, Branch { branches: vec![(1, Branch { branches: vec![(1, Branch { branches: vec![] })] })] }),
        ],
    };
    let once = tree().prune().unwrap();
    assert_eq!(once, Branch { branches: vec![(1, Branch { branches: vec![(2, Leaf { value: 'a' })] })] });
    assert_eq!(once.prune(), Some(tree().prune().unwrap()));
}

#[test]
fn select_takes_the_branch_whose_range_holds_the_draw() {
    let weights: Vec<u16> = vec![3, 0, 2];
    let picks: Vec<usize> = (0..5).map(|c| select(&weights, c)).collect();
    assert_eq!(picks, vec![0, 0, 0, 2, 2]);
    assert_eq!(select(&vec![1, 1, 1], 1), 1);
}
