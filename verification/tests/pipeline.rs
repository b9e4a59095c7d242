use proof_of_history::{tick, ticks, verify, Keccak256, Output, Producer, Replica, Sha256};
use std::collections::HashMap;

type Hash = Output<Keccak256>;

fn no_data(_position: usize, _tick: &Output<Sha256>) -> Output<Sha256> {
    Output::zero()
}

fn block_after(last: &Output<Sha256>, length: usize) -> Vec<Output<Sha256>> {
    let mut clock = ticks::<Sha256>(last.clone());
    (0..length).map(|_| clock.next()).collect()
}

#[test]
fn replica_starts_with_the_seed() {
    let seed = Output::<Sha256>::digest(b"seed");
    let replica = Replica::new(seed.clone());
    assert_eq!(replica.history(), &[seed.clone()][..]);
    assert_eq!(replica.last(), &seed);
    assert_eq!(replica.into_history(), vec![seed]);
}

#[test]
fn replica_appends_blocks_that_continue_its_history() {
    let seed = Output::<Sha256>::digest(b"seed");
    let mut replica = Replica::new(seed.clone());
    let first = block_after(&seed, 5);
    let second = block_after(&first[4], 3);
    assert_eq!(replica.accept(first.clone(), no_data), Ok(()));
    assert_eq!(replica.last(), &first[4]);
    assert_eq!(replica.accept(second.clone(), no_data), Ok(()));
    let mut expected = vec![seed];
    expected.extend(first);
    expected.extend(second);
    assert_eq!(replica.history(), &expected[..]);
    assert_eq!(verify::<Sha256, _>(replica.history(), no_data), Ok(()));
}

#[test]
fn replica_accepts_an_empty_block() {
    let seed = Output::<Sha256>::digest(b"seed");
    let mut replica = Replica::new(seed.clone());
    assert_eq!(replica.accept(Vec::new(), no_data), Ok(()));
    assert_eq!(replica.history(), &[seed][..]);
}

#[test]
fn replica_rejects_a_block_that_skips_a_tick() {
    let seed = Output::<Sha256>::digest(b"seed");
    let mut replica = Replica::new(seed.clone());
    let block = block_after(&seed, 6);
    // The first tick went missing on the way: the rest is a chain, but not from the seed.
    assert_eq!(verify::<Sha256, _>(&block[1..], no_data), Ok(()));
    assert_eq!(replica.accept(block[1..].to_vec(), no_data), Err(0));
    assert_eq!(replica.history(), &[seed][..]);
}

#[test]
fn replica_rejects_blocks_out_of_order() {
    let seed = Output::<Sha256>::digest(b"seed");
    let mut replica = Replica::new(seed.clone());
    let first = block_after(&seed, 4);
    let second = block_after(&first[3], 4);
    assert_eq!(replica.accept(second.clone(), no_data), Err(0));
    assert_eq!(replica.accept(first, no_data), Ok(()));
    assert_eq!(replica.accept(second, no_data), Ok(()));
    assert_eq!(replica.history().len(), 9);
}

#[test]
fn replica_rejects_a_block_broken_inside() {
    let seed = Output::<Sha256>::digest(b"seed");
    let mut replica = Replica::new(seed.clone());
    let mut block = block_after(&seed, 8);
    let mut bytes = block[5].as_bytes().to_vec();
    bytes[0] ^= 0x80;
    block[5] = Output::from_bytes(bytes).unwrap();
    assert_eq!(replica.accept(block, no_data), Err(5));
    assert_eq!(replica.history(), &[seed][..]);
}

#[test]
fn replica_asks_the_supplier_by_index_in_the_block() {
    let seed = Output::<Sha256>::digest(b"seed");
    let commitments: Vec<Output<Sha256>> =
        (0..4u8).map(|i| Output::<Sha256>::digest(&[i])).collect();
    let mut previous = seed.clone();
    let mut block = Vec::new();
    for commitment in &commitments {
        previous = tick::<Sha256>(&previous, commitment);
        block.push(previous.clone());
    }
    let by_index = |index: usize, _tick: &Output<Sha256>| commitments[index].clone();
    let mut replica = Replica::new(seed.clone());
    assert_eq!(replica.accept(block.clone(), &by_index), Ok(()));
    let mut replica = Replica::new(seed);
    assert_eq!(replica.accept(block, no_data), Err(0));
}

#[test]
fn producer_cuts_blocks_of_the_given_size() {
    let seed = Output::<Sha256>::digest(b"seed");
    let mut producer = Producer::new(seed.clone(), 3);
    let mut clock = ticks::<Sha256>(seed);
    assert_eq!(producer.take_block(), None);
    let t1 = producer.next();
    assert_eq!(t1, clock.next());
    assert_eq!(producer.take_block(), None);
    let data = Output::<Sha256>::digest(b"data");
    let t2 = producer.next_with_data(&data);
    assert_eq!(t2, clock.next_with_data(&data));
    assert_eq!(producer.take_block(), None);
    let t3 = producer.next();
    assert_eq!(t3, clock.next());
    assert_eq!(producer.take_block(), Some(vec![t1, t2, t3]));
    assert_eq!(producer.take_block(), None);
    let t4 = producer.next();
    assert_eq!(t4, clock.next());
    assert_eq!(producer.take_block(), None);
}

#[test]
fn producer_asked_for_empty_blocks_cuts_blocks_of_one() {
    let seed = Output::<Sha256>::digest(b"seed");
    let mut producer = Producer::new(seed, 0);
    assert_eq!(producer.take_block(), None);
    let t1 = producer.next();
    assert_eq!(producer.take_block(), Some(vec![t1]));
    assert_eq!(producer.take_block(), None);
}

#[test]
fn producer_hands_over_late_blocks_whole() {
    let seed = Output::<Sha256>::digest(b"seed");
    let mut producer = Producer::new(seed, 2);
    let produced: Vec<_> = (0..5).map(|_| producer.next()).collect();
    assert_eq!(producer.take_block(), Some(produced));
    assert_eq!(producer.take_block(), None);
}

/// A block as it travels from the producer to the verifier.
struct Block {
    ticks: Vec<Hash>,
    input_data: HashMap<Hash, String>,
}

#[test]
fn pipeline_end_to_end() {
    const BLOCK: usize = 5_000;
    const BLOCKS: usize = 10;
    let seed = Hash::digest("Hello World!".as_bytes());
    let (tx, rx) = std::sync::mpsc::sync_channel::<Block>(1);

    let mut replica = Replica::new(seed.clone());
    let mut seen: HashMap<Hash, String> = HashMap::new();

    let mut history = vec![seed.clone()];
    let mut producer = Producer::new(seed, BLOCK);
    let mut input_data: HashMap<Hash, String> = HashMap::new();
    let mut sent = 0;
    for i in 0..(BLOCK * BLOCKS) {
        let tick = match (i + 1) % 16 {
            0 => {
                let tick_data = format!("Extra data for tick {i}");
                let tick = producer.next_with_data(&Hash::digest(tick_data.as_bytes()));
                input_data.insert(tick.clone(), tick_data);
                tick
            }
            _ => producer.next(),
        };
        history.push(tick);
        if let Some(ticks) = producer.take_block() {
            assert_eq!(ticks.len(), BLOCK);
            assert_eq!(&ticks[..], &history[history.len() - BLOCK..]);
            let block = Block { ticks, input_data: std::mem::take(&mut input_data) };
            tx.send(block).unwrap();
            sent += 1;

            // The verifier's turn: one block is waiting in the channel.
            let block = rx.recv().unwrap();
            let data_fn = |_ix: usize, hash: &Hash| {
                block.input_data.get(hash).map(|text| Hash::digest(text.as_bytes())).unwrap_or_default()
            };
            let window = [replica.last().clone(), block.ticks[0].clone()];
            assert_eq!(verify::<Keccak256, _>(&window, &data_fn), Ok(()));
            assert_eq!(verify::<Keccak256, _>(&block.ticks, &data_fn), Ok(()));
            assert_eq!(replica.accept(block.ticks.clone(), &data_fn), Ok(()));
            seen.extend(block.input_data);
        }
    }
    std::mem::drop(tx);
    assert!(rx.recv().is_err());
    assert_eq!(sent, BLOCKS);
    assert_eq!(seen.len(), BLOCK * BLOCKS / 16);

    let verifier_history = replica.into_history();
    assert_eq!(history.len(), BLOCK * BLOCKS + 1);
    assert_eq!(history, verifier_history);
}
