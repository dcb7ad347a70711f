# sdmmc

A driver for SD cards behind a DesignWare mobile storage host controller, with and
without its internal DMA controller (IDMAC).

`src/` is the driver's logic, verified with Verus. It touches no hardware: every
operation is a state machine that asks for one piece of outside work at a time (a
`Request`: read a register, allocate coherent memory, look at the clock) and takes in
the `Reply`. `app/` performs that work on the machine.

| module      | holds                                                     |
|-------------|-----------------------------------------------------------|
| `bits`      | single bits of a register word                            |
| `regs`      | the controller's registers                                |
| `cmd`       | commands and their encoding                               |
| `csd`       | the card's capacity                                       |
| `dma`       | coherent memory and IDMAC descriptors                     |
| `bus`       | requests, replies, and runs of an operation               |
| `send`      | a command whose data the CPU moves                        |
| `idmac`     | a command whose data the IDMAC moves                      |
| `init`      | bringing up the controller and the card                   |
| `enable`    | entering DMA mode, or falling back                        |
| `block`     | reading and writing one block                             |
| `interrupt` | the interrupt handler                                     |
| `sdmmc`     | the driver                                                |

Each executable step is proved equal to its mathematical transition. What follows for
whole runs, whatever the hardware answers, is stated and proved in the modules whose
names end in `_laws`, and in `interrupt`.
