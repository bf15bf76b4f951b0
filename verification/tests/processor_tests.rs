use kama_core::graph::processor::{BufferManager, BufferPool, NodeBuffers, NodeProcessor};
use kama_core::graph::NodeId;

#[test]
fn pool_hands_out_cleared_buffers_of_the_asked_length() {
    let mut pool = BufferPool::new(2, 4, 0.0f32);
    let a = pool.acquire(4);
    assert_eq!(a, vec![0.0; 4]);
    let b = pool.acquire(6);
    assert_eq!(b, vec![0.0; 6]);
    // The pool is dry: a new buffer is made.
    let c = pool.acquire(3);
    assert_eq!(c, vec![0.0; 3]);
}

#[test]
fn pool_takes_back_only_buffers_of_its_length_and_clears_them() {
    let mut pool = BufferPool::new(0, 4, 0u32);
    pool.release(vec![7, 7, 7, 7]);
    pool.release(vec![1, 2]);
    assert_eq!(pool.acquire(4), vec![0, 0, 0, 0]);
    // Only the buffer of length 4 came back.
    assert_eq!(pool.acquire(2), vec![0, 0]);
}

#[test]
fn manager_prepares_buffers_per_node() {
    let mut manager = BufferManager::new(0i32);
    {
        let bufs = manager.get_buffers(NodeId(5), 2, 1, 8);
        assert_eq!(bufs.inputs, vec![vec![0; 8], vec![0; 8]]);
        assert_eq!(bufs.outputs, vec![vec![0; 8]]);
        bufs.outputs[0][3] = 9;
        bufs.inputs[1][0] = 4;
    }
    {
        // Same shape: the buffers are cleared.
        let bufs = manager.get_buffers(NodeId(5), 2, 1, 8);
        assert_eq!(bufs.outputs, vec![vec![0; 8]]);
        assert_eq!(bufs.inputs[1], vec![0; 8]);
        bufs.inputs[0][1] = 6;
    }
    {
        // A new length: the samples are kept and the buffer extended.
        let bufs = manager.get_buffers(NodeId(5), 2, 1, 10);
        assert_eq!(bufs.inputs[0], vec![0, 6, 0, 0, 0, 0, 0, 0, 0, 0]);
    }
    {
        let other = manager.get_buffers(NodeId(1), 0, 3, 2);
        assert!(other.inputs.is_empty());
        assert_eq!(other.outputs, vec![vec![0; 2]; 3]);
    }
    manager.release_all();
    let fresh = manager.get_buffers(NodeId(5), 1, 0, 4);
    assert_eq!(fresh.inputs, vec![vec![0; 4]]);
}

#[test]
fn node_buffers_start_empty() {
    let b: NodeBuffers<f32> = NodeBuffers::new();
    assert!(b.inputs.is_empty() && b.outputs.is_empty());
    let _processor = NodeProcessor::new();
}
