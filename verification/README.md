# road_intersection

A four-way traffic intersection with a fair, congestion-aware traffic-light
controller, written in Verus.

- `src/` is the verified library:
  - `geometry`: the junction's integer constants, lane capacity
    (floor of lane length over vehicle length plus gap) and route exits;
  - `lights`: the controller (one green approach at a time, minimum and
    maximum green, all-red clearing that waits for the conflict zone, and the
    choice of the next green approach by overdue, critical and longest wait
    with round-robin ties), with its laws;
  - `fairness`: the proof that an approach whose queue never empties turns
    green within `starvation_bound(k)` ticks whenever the conflict zone
    becomes clear within `k + 1` ticks of all-red;
  - `vehicle`: vehicle phases, queue lengths, conflict-zone occupancy, spawn
    admission, and the random route and random origin order (through `rand`);
  - `render`, `sprites`, `controls`, `drawing`: panel layout, labels and hit
    testing, sprite frames, sheet sizes and route colours, keyboard and panel
    commands, and the raster spans and arrow strokes of the drawing helpers.
- `app/` is the SDL2 program: window, events, sprite and font loading,
  drawing, and the floating-point vehicle movement along curved paths.
- `tests/` exercises the library.
