use rusttools::evolutionary_algorithms::fitness_based::Individual;

#[test]
fn ord_test() {
    let test = vec![Individual::new(vec!['y'], 0), Individual::new(vec!['n'], 10)];

    let max = if test[0] >= test[1] { &test[0] } else { &test[1] };
    println!("{:#?}", Some(max));
}

#[test]
fn individuals_rank_by_fitness_alone() {
    let weak = Individual::new(vec!['a', 'b'], 1);
    let strong = Individual::new(vec!['a'], 5);
    let rival = Individual::new(vec!['z'], 5);

    assert!(weak < strong);
    assert!(strong > weak);
    assert!(strong >= rival);
    assert!(strong <= rival);
    assert_eq!(strong.fitness(), 5);
}
